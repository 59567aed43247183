//! Rendering processor usage.

use vstd::prelude::*;

use crate::block::Block;
use crate::color::Color;
use crate::message::Message;
use crate::text::{dec_chars, push_char, u32_to_dec};

verus! {

/// The processor block's text: the chip icon, a space, and the usage
/// percent.
pub open spec fn cpu_text(usage: u32) -> Seq<char> {
    seq!['\u{f08d6}', ' '] + dec_chars(usage as nat) + seq!['%']
}

/// Renders processor usage, with a warning background above a critical
/// level.
pub struct CpuView<M> {
    pub usage: u32,
    pub message: M,
    pub foreground: Color,
    pub critical_usage: u32,
    pub critical_background: Color,
}

impl<M> CpuView<M> {
    /// A view warning above 95 percent on a firebrick background.
    pub fn new(usage: u32, message: M, foreground: Color) -> (v: CpuView<M>)
        ensures
            v == (CpuView {
                usage,
                message,
                foreground,
                critical_usage: 95u32,
                critical_background: Color { red: 178, green: 34, blue: 34 },
            }),
    {
        CpuView {
            usage,
            message,
            foreground,
            critical_usage: 95,
            critical_background: Color { red: 178, green: 34, blue: 34 },
        }
    }

    /// The same view with another critical threshold.
    pub fn critical_when_more_than(self, critical_usage: u32) -> (v: CpuView<M>)
        ensures
            v == (CpuView { critical_usage, ..self }),
    {
        CpuView { critical_usage, ..self }
    }

    /// The same view with another warning background.
    pub fn critical_background(self, background: Color) -> (v: CpuView<M>)
        ensures
            v == (CpuView { critical_background: background, ..self }),
    {
        CpuView { critical_background: background, ..self }
    }
}

impl<M: Message> CpuView<M> {
    /// The block for this usage level.
    pub fn render(&self) -> (b: Block<M>)
        ensures
            b.message == self.message,
            b.text@ == cpu_text(self.usage),
            b.foreground == self.foreground,
            b.background == (if self.usage > self.critical_usage {
                Some(self.critical_background)
            } else {
                None::<Color>
            }),
            b.border is None,
    {
        let mut text = String::new();
        push_char(&mut text, '\u{f08d6}');
        push_char(&mut text, ' ');
        let u = u32_to_dec(self.usage);
        text.append(u.as_str());
        push_char(&mut text, '%');
        proof {
            assert(text@ =~= cpu_text(self.usage));
        }
        let background = if self.usage > self.critical_usage {
            Some(self.critical_background)
        } else {
            None
        };
        Block {
            message: self.message.duplicate(),
            text,
            foreground: self.foreground,
            background,
            border: None,
        }
    }
}

} // verus!
