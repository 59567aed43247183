//! Rendering the battery state.

use vstd::prelude::*;

use crate::block::Block;
use crate::color::Color;
use crate::message::Message;
use crate::sources::BatteryState;
use crate::text::{dec_chars, push_char, u32_to_dec};

verus! {

/// The icon slot for a capacity percentage: eleven even steps, capped at
/// the last.
pub open spec fn battery_icon_index(capacity: int) -> int {
    let i = capacity * 11 / 100;
    if i > 10 {
        10
    } else {
        i
    }
}

/// The battery glyph for an icon slot, filled or charging.
pub open spec fn battery_symbol(i: int, charging: bool) -> char {
    if charging {
        if i == 0 {
            '\u{f089f}'
        } else if i == 1 {
            '\u{f089c}'
        } else if i == 2 {
            '\u{f0086}'
        } else if i == 3 {
            '\u{f0087}'
        } else if i == 4 {
            '\u{f0088}'
        } else if i == 5 {
            '\u{f089d}'
        } else if i == 6 {
            '\u{f0089}'
        } else if i == 7 {
            '\u{f089e}'
        } else if i == 8 {
            '\u{f008a}'
        } else if i == 9 {
            '\u{f008b}'
        } else {
            '\u{f0085}'
        }
    } else {
        if i == 0 {
            '\u{f008e}'
        } else if i == 1 {
            '\u{f007a}'
        } else if i == 2 {
            '\u{f007b}'
        } else if i == 3 {
            '\u{f007c}'
        } else if i == 4 {
            '\u{f007d}'
        } else if i == 5 {
            '\u{f007e}'
        } else if i == 6 {
            '\u{f007f}'
        } else if i == 7 {
            '\u{f0080}'
        } else if i == 8 {
            '\u{f0081}'
        } else if i == 9 {
            '\u{f0082}'
        } else {
            '\u{f0079}'
        }
    }
}

/// The battery glyph for a capacity percentage.
pub fn battery_icon(capacity: u32, charging: bool) -> (c: char)
    ensures
        c == battery_symbol(battery_icon_index(capacity as int), charging),
{
    let i = capacity as u64 * 11 / 100;
    let i: u64 = if i > 10 {
        10
    } else {
        i
    };
    if charging {
        match i {
            0 => '\u{f089f}',
            1 => '\u{f089c}',
            2 => '\u{f0086}',
            3 => '\u{f0087}',
            4 => '\u{f0088}',
            5 => '\u{f089d}',
            6 => '\u{f0089}',
            7 => '\u{f089e}',
            8 => '\u{f008a}',
            9 => '\u{f008b}',
            _ => '\u{f0085}',
        }
    } else {
        match i {
            0 => '\u{f008e}',
            1 => '\u{f007a}',
            2 => '\u{f007b}',
            3 => '\u{f007c}',
            4 => '\u{f007d}',
            5 => '\u{f007e}',
            6 => '\u{f007f}',
            7 => '\u{f0080}',
            8 => '\u{f0081}',
            9 => '\u{f0082}',
            _ => '\u{f0079}',
        }
    }
}

/// The battery block's text: the icon, a space, and the capacity percent.
pub open spec fn battery_text(st: BatteryState) -> Seq<char> {
    seq![battery_symbol(battery_icon_index(st.capacity as int), st.charging), ' '] + dec_chars(
        st.capacity as nat,
    ) + seq!['%']
}

/// Renders the battery state, with a warning background below a critical
/// capacity.
pub struct BatteryView<M> {
    pub state: BatteryState,
    pub message: M,
    pub foreground: Color,
    pub critical_capacity: u32,
    pub critical_background: Color,
}

impl<M> BatteryView<M> {
    /// A view warning below 20 percent on a firebrick background.
    pub fn new(state: BatteryState, message: M, foreground: Color) -> (v: BatteryView<M>)
        ensures
            v == (BatteryView {
                state,
                message,
                foreground,
                critical_capacity: 20u32,
                critical_background: Color { red: 178, green: 34, blue: 34 },
            }),
    {
        BatteryView {
            state,
            message,
            foreground,
            critical_capacity: 20,
            critical_background: Color { red: 178, green: 34, blue: 34 },
        }
    }

    /// The same view with another critical threshold.
    pub fn critical_when_less_than(self, critical_capacity: u32) -> (v: BatteryView<M>)
        ensures
            v == (BatteryView { critical_capacity, ..self }),
    {
        BatteryView { critical_capacity, ..self }
    }

    /// The same view with another warning background.
    pub fn critical_background(self, background: Color) -> (v: BatteryView<M>)
        ensures
            v == (BatteryView { critical_background: background, ..self }),
    {
        BatteryView { critical_background: background, ..self }
    }
}

impl<M: Message> BatteryView<M> {
    /// The block for this battery state.
    pub fn render(&self) -> (b: Block<M>)
        ensures
            b.message == self.message,
            b.text@ == battery_text(self.state),
            b.foreground == self.foreground,
            b.background == (if self.state.capacity < self.critical_capacity {
                Some(self.critical_background)
            } else {
                None::<Color>
            }),
            b.border is None,
    {
        let mut text = String::new();
        push_char(&mut text, battery_icon(self.state.capacity, self.state.charging));
        push_char(&mut text, ' ');
        let cap = u32_to_dec(self.state.capacity);
        text.append(cap.as_str());
        push_char(&mut text, '%');
        proof {
            assert(text@ =~= battery_text(self.state));
        }
        let background = if self.state.capacity < self.critical_capacity {
            Some(self.critical_background)
        } else {
            None
        };
        Block {
            message: self.message.duplicate(),
            text,
            foreground: self.foreground,
            background,
            border: None,
        }
    }
}

} // verus!
