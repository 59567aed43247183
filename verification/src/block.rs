//! The renderable status item handed to the protocol writer.

use vstd::prelude::*;

use crate::color::Color;
use crate::message::Message;

verus! {

/// One renderable status item: text, colors, and an attached message that
/// comes back verbatim when the item is clicked.
#[derive(Debug, PartialEq, Eq)]
pub struct Block<M> {
    pub message: M,
    pub text: String,
    pub foreground: Color,
    pub background: Option<Color>,
    pub border: Option<Color>,
}

impl<M> Block<M> {
    /// A block with the given text, foreground and message, and neither
    /// background nor border.
    pub fn new(text: String, foreground: Color, message: M) -> (b: Block<M>)
        ensures
            b == (Block { message, text, foreground, background: None, border: None }),
    {
        Block { message, text, foreground, background: None, border: None }
    }
}

impl<M: Message> Block<M> {
    /// A copy equal to this block.
    pub fn duplicate(&self) -> (r: Block<M>)
        ensures
            r == *self,
    {
        Block {
            message: self.message.duplicate(),
            text: self.text.clone(),
            foreground: self.foreground,
            background: self.background,
            border: self.border,
        }
    }
}

} // verus!
