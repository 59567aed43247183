//! Rendering memory usage.

use vstd::prelude::*;

use crate::block::Block;
use crate::color::Color;
use crate::message::Message;
use crate::sources::MemoryUsage;
use crate::text::{format_quantity, push_char, quantity_chars};
use crate::util::{pie_chart, pie_index, pie_symbol};

verus! {

/// The memory block's text: the memory icon, the used quantity, and a pie
/// chart of the used share.
pub open spec fn memory_text(u: MemoryUsage) -> Seq<char> {
    seq!['\u{f1296}', ' '] + quantity_chars(u.used as nat, "B"@) + seq![' ', pie_symbol(
        pie_index(u.used as int * 100 / (u.total as int)),
    )]
}

/// Renders memory usage, with a warning background when free memory runs
/// low.
pub struct MemoryView<M> {
    pub usage: MemoryUsage,
    pub message: M,
    pub foreground: Color,
    pub critical_availability: u64,
    pub critical_background: Color,
}

impl<M> MemoryView<M> {
    /// A view warning below half a decimal gigabyte of free memory on a
    /// firebrick background.
    pub fn new(usage: MemoryUsage, message: M, foreground: Color) -> (v: MemoryView<M>)
        ensures
            v == (MemoryView {
                usage,
                message,
                foreground,
                critical_availability: 500000000u64,
                critical_background: Color { red: 178, green: 34, blue: 34 },
            }),
    {
        MemoryView {
            usage,
            message,
            foreground,
            critical_availability: 500000000,
            critical_background: Color { red: 178, green: 34, blue: 34 },
        }
    }

    /// The same view with another critical threshold.
    pub fn critical_when_less_than(self, critical_availability: u64) -> (v: MemoryView<M>)
        ensures
            v == (MemoryView { critical_availability, ..self }),
    {
        MemoryView { critical_availability, ..self }
    }

    /// The same view with another warning background.
    pub fn critical_background(self, background: Color) -> (v: MemoryView<M>)
        ensures
            v == (MemoryView { critical_background: background, ..self }),
    {
        MemoryView { critical_background: background, ..self }
    }
}

impl<M: Message> MemoryView<M> {
    /// The block for this usage.
    pub fn render(&self) -> (b: Block<M>)
        requires
            self.usage.used <= self.usage.total,
            0 < self.usage.total,
        ensures
            b.message == self.message,
            b.text@ == memory_text(self.usage),
            b.foreground == self.foreground,
            b.background == (if self.usage.total - self.usage.used
                < self.critical_availability as int {
                Some(self.critical_background)
            } else {
                None::<Color>
            }),
            b.border is None,
    {
        let available = self.usage.total - self.usage.used;
        let critical = available < self.critical_availability;
        let mut text = String::new();
        push_char(&mut text, '\u{f1296}');
        push_char(&mut text, ' ');
        let q = format_quantity(self.usage.used, "B");
        text.append(q.as_str());
        push_char(&mut text, ' ');
        let wide: u128 = self.usage.used as u128 * 100 / (self.usage.total as u128);
        proof {
            assert(0 <= self.usage.used as int * 100 / (self.usage.total as int) <= 100)
                by (nonlinear_arith)
                requires
                    self.usage.used <= self.usage.total,
                    0 < self.usage.total,
            ;
            assert(wide as int == self.usage.used as int * 100 / (self.usage.total as int));
        }
        let share = wide as u32;
        push_char(&mut text, pie_chart(share));
        proof {
            assert(text@ =~= memory_text(self.usage));
        }
        let background = if critical {
            Some(self.critical_background)
        } else {
            None
        };
        Block {
            message: self.message.duplicate(),
            text,
            foreground: self.foreground,
            background,
            border: None,
        }
    }
}

} // verus!
