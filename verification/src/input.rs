//! What the player asks for in one step, and how key states become such a request.

use vstd::prelude::*;

verus! {

/// The keys that the simulation listens to.
#[derive(Clone, Copy, Debug, PartialEq, Eq, Structural)]
pub enum Key {
    Left,
    Right,
    Space,
}

/// The horizontal movement asked of the paddle.
#[derive(Clone, Copy, Debug, PartialEq, Eq, Structural)]
pub enum Horizontal {
    Left,
    Right,
    Still,
}

/// The player's request for one step.
#[derive(Clone, Copy, Debug, PartialEq, Eq, Structural)]
pub struct InputIntent {
    pub horizontal: Horizontal,
    pub launch: bool,
}

impl InputIntent {
    /// The request that the three keys stand for. The left key wins over the
    /// right key, and either of them wins over the launch key: a ball is only
    /// launched while the paddle is not being moved.
    pub open spec fn spec_from_keys(left: bool, right: bool, space: bool) -> InputIntent {
        if left {
            InputIntent { horizontal: Horizontal::Left, launch: false }
        } else if right {
            InputIntent { horizontal: Horizontal::Right, launch: false }
        } else {
            InputIntent { horizontal: Horizontal::Still, launch: space }
        }
    }

    /// The request with no key held.
    pub open spec fn spec_idle() -> InputIntent {
        InputIntent { horizontal: Horizontal::Still, launch: false }
    }

    /// The request that the states of the left-arrow, right-arrow and space keys make.
    #[verifier::when_used_as_spec(spec_from_keys)]
    pub fn from_keys(left: bool, right: bool, space: bool) -> (intent: InputIntent)
        ensures
            intent == Self::spec_from_keys(left, right, space),
    {
        if left {
            InputIntent { horizontal: Horizontal::Left, launch: false }
        } else if right {
            InputIntent { horizontal: Horizontal::Right, launch: false }
        } else {
            InputIntent { horizontal: Horizontal::Still, launch: space }
        }
    }

    /// Asks `is_pressed` for the keys, in the order left, right, space, and only
    /// as far as needed: a held left key settles the request, and so does a held
    /// right key after it. The request is the one that [`InputIntent::from_keys`]
    /// gives for the answers.
    pub fn poll<F: Fn(Key) -> bool>(is_pressed: F) -> (intent: InputIntent)
        requires
            forall|key: Key| call_requires(is_pressed, (key,)),
        ensures
            call_ensures(is_pressed, (Key::Left,), intent.horizontal == Horizontal::Left),
            intent.horizontal != Horizontal::Left ==> call_ensures(
                is_pressed,
                (Key::Right,),
                intent.horizontal == Horizontal::Right,
            ),
            intent.horizontal == Horizontal::Still ==> call_ensures(
                is_pressed,
                (Key::Space,),
                intent.launch,
            ),
            intent.horizontal != Horizontal::Still ==> !intent.launch,
    {
        if is_pressed(Key::Left) {
            Self::from_keys(true, false, false)
        } else if is_pressed(Key::Right) {
            Self::from_keys(false, true, false)
        } else {
            let space = is_pressed(Key::Space);
            Self::from_keys(false, false, space)
        }
    }

    #[verifier::when_used_as_spec(spec_idle)]
    pub fn idle() -> (intent: InputIntent)
        ensures
            intent == Self::spec_idle(),
    {
        InputIntent { horizontal: Horizontal::Still, launch: false }
    }
}

} // verus!
