//! Rendering a backlight device's brightness.

use vstd::prelude::*;

use crate::block::Block;
use crate::color::Color;
use crate::message::Message;
use crate::sources::BrightnessInfo;
use crate::text::{dec_chars, push_char, u32_to_dec};

verus! {

/// The brightness block's text: the sun icon, a space, and the level
/// percent.
pub open spec fn brightness_text(level: u32) -> Seq<char> {
    seq!['\u{f00e0}', ' '] + dec_chars(level as nat) + seq!['%']
}

/// Renders one backlight device's brightness level.
pub struct BrightnessView<M> {
    pub info: BrightnessInfo,
    pub message: M,
    pub foreground: Color,
}

impl<M> BrightnessView<M> {
    pub fn new(info: BrightnessInfo, message: M, foreground: Color) -> (v: BrightnessView<M>)
        ensures
            v == (BrightnessView { info, message, foreground }),
    {
        BrightnessView { info, message, foreground }
    }
}

impl<M: Message> BrightnessView<M> {
    /// The block for this brightness level.
    pub fn render(&self) -> (b: Block<M>)
        ensures
            b.message == self.message,
            b.text@ == brightness_text(self.info.level),
            b.foreground == self.foreground,
            b.background is None,
            b.border is None,
    {
        let mut text = String::new();
        push_char(&mut text, '\u{f00e0}');
        push_char(&mut text, ' ');
        let lv = u32_to_dec(self.info.level);
        text.append(lv.as_str());
        push_char(&mut text, '%');
        proof {
            assert(text@ =~= brightness_text(self.info.level));
        }
        Block {
            message: self.message.duplicate(),
            text,
            foreground: self.foreground,
            background: None,
            border: None,
        }
    }
}

} // verus!
