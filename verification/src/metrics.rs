//! The frames-per-second indicator that the host shows on screen.

use vstd::prelude::*;

verus! {

/// The indicator takes a new value on every step whose number is a multiple of this.
pub const REFRESH_EVERY: u64 = 10;

/// What the host's clock reports for one step: the number of the step and the
/// current estimate of frames per second, truncated to a whole number.
#[derive(Clone, Copy, Debug, PartialEq, Eq, Structural)]
pub struct FrameSample {
    pub ticks: u64,
    pub fps: u64,
}

/// The frame rate that is currently shown.
#[derive(Clone, Copy, Debug, PartialEq, Eq, Structural)]
pub struct FrameMetrics {
    pub shown_fps: u64,
}

/// The character that stands for a digit below ten.
pub open spec fn digit_char(d: nat) -> char {
    if d == 0 {
        '0'
    } else if d == 1 {
        '1'
    } else if d == 2 {
        '2'
    } else if d == 3 {
        '3'
    } else if d == 4 {
        '4'
    } else if d == 5 {
        '5'
    } else if d == 6 {
        '6'
    } else if d == 7 {
        '7'
    } else if d == 8 {
        '8'
    } else {
        '9'
    }
}

/// The decimal numeral of `n`, without leading zeros.
pub open spec fn decimal(n: nat) -> Seq<char>
    decreases n,
{
    if n < 10 {
        seq![digit_char(n)]
    } else {
        decimal(n / 10).push(digit_char(n % 10))
    }
}

/// Appends one character to a string.
///
/// Calls `String::push`, of which the standard library says that it appends the
/// given character to the end of the string; the contract says the same of the
/// sequence of characters.
#[verifier::external_body]
fn push_char(text: &mut String, c: char)
    ensures
        final(text)@ == old(text)@.push(c),
{
    text.push(c);
}

fn digit(d: u64) -> (c: char)
    requires
        d < 10,
    ensures
        c == digit_char(d as nat),
{
    if d == 0 {
        '0'
    } else if d == 1 {
        '1'
    } else if d == 2 {
        '2'
    } else if d == 3 {
        '3'
    } else if d == 4 {
        '4'
    } else if d == 5 {
        '5'
    } else if d == 6 {
        '6'
    } else if d == 7 {
        '7'
    } else if d == 8 {
        '8'
    } else {
        '9'
    }
}

/// Appends the decimal numeral of `n` to `text`.
pub fn push_decimal(text: &mut String, n: u64)
    ensures
        final(text)@ == old(text)@ + decimal(n as nat),
    decreases n,
{
    if n >= 10 {
        push_decimal(text, n / 10);
    }
    push_char(text, digit(n % 10));
    proof {
        assert(text@ =~= old(text)@ + decimal(n as nat));
    }
}

impl FrameMetrics {
    /// The indicator after a step for which the clock reported `sample`: the
    /// reported rate on every step whose number is a multiple of
    /// [`REFRESH_EVERY`], the value shown before on every other step.
    pub open spec fn observed(self, sample: FrameSample) -> FrameMetrics {
        if sample.ticks % REFRESH_EVERY == 0 {
            FrameMetrics { shown_fps: sample.fps }
        } else {
            self
        }
    }

    /// An indicator that shows 0.
    pub fn new() -> (metrics: FrameMetrics)
        ensures
            metrics == (FrameMetrics { shown_fps: 0 }),
    {
        FrameMetrics { shown_fps: 0 }
    }

    /// Takes note of what the clock reported for one step.
    pub fn observe(&mut self, sample: FrameSample)
        ensures
            *final(self) == old(self).observed(sample),
    {
        if sample.ticks % REFRESH_EVERY == 0 {
            self.shown_fps = sample.fps;
        }
    }

    /// The shown rate as text: its decimal numeral.
    pub fn text(self) -> (text: String)
        ensures
            text@ == decimal(self.shown_fps as nat),
    {
        let mut text = String::new();
        push_decimal(&mut text, self.shown_fps);
        text
    }
}

} // verus!
