//! Rendering the time of day.

use vstd::prelude::*;

use crate::block::Block;
use crate::color::Color;
use crate::message::Message;
use crate::text::{push_char, push_two_digits, two_digit_chars};

verus! {

/// A wall-clock time, to the minute.
#[derive(Clone, Copy, Debug, Eq, PartialEq, Structural)]
pub struct ClockTime {
    /// Hour of the day, below 24.
    pub hour: u8,
    /// Minute of the hour, below 60.
    pub minute: u8,
}

pub open spec fn time_wf(t: ClockTime) -> bool {
    t.hour < 24 && t.minute < 60
}

/// The time block's text: `hh:mm`, both parts zero padded.
pub open spec fn time_text(t: ClockTime) -> Seq<char> {
    two_digit_chars(t.hour as int) + seq![':'] + two_digit_chars(t.minute as int)
}

/// Renders a wall-clock time.
pub struct TimeView<M> {
    pub time: ClockTime,
    pub message: M,
    pub foreground: Color,
}

impl<M> TimeView<M> {
    pub fn new(time: ClockTime, message: M, foreground: Color) -> (v: TimeView<M>)
        ensures
            v == (TimeView { time, message, foreground }),
    {
        TimeView { time, message, foreground }
    }
}

impl<M: Message> TimeView<M> {
    /// The block for this time.
    pub fn render(&self) -> (b: Block<M>)
        requires
            time_wf(self.time),
        ensures
            b.message == self.message,
            b.text@ == time_text(self.time),
            b.foreground == self.foreground,
            b.background is None,
            b.border is None,
    {
        let mut text = String::new();
        push_two_digits(&mut text, self.time.hour);
        push_char(&mut text, ':');
        push_two_digits(&mut text, self.time.minute);
        proof {
            assert(text@ =~= time_text(self.time));
        }
        Block {
            message: self.message.duplicate(),
            text,
            foreground: self.foreground,
            background: None,
            border: None,
        }
    }
}

} // verus!
