//! RGB colors and their textual `#rrggbb` form.

use vstd::prelude::*;

use crate::text::push_char;

verus! {

/// An RGB color, eight bits per channel, no alpha.
#[derive(Clone, Copy, Debug, PartialEq, Eq, Structural)]
pub struct Color {
    pub red: u8,
    pub green: u8,
    pub blue: u8,
}

/// The lowercase hexadecimal digit for a value below sixteen.
pub open spec fn hex_digit(v: int) -> char {
    if v < 10 {
        ((v + 48) as u8) as char
    } else {
        ((v + 87) as u8) as char
    }
}

/// The `#rrggbb` text of a color, lowercase digits.
pub open spec fn hex_chars(c: Color) -> Seq<char> {
    seq![
        '#',
        hex_digit(c.red as int / 16),
        hex_digit(c.red as int % 16),
        hex_digit(c.green as int / 16),
        hex_digit(c.green as int % 16),
        hex_digit(c.blue as int / 16),
        hex_digit(c.blue as int % 16),
    ]
}

pub(crate) fn hex_digit_char(v: u8) -> (c: char)
    requires
        v < 16,
    ensures
        c == hex_digit(v as int),
{
    if v < 10 {
        (v + 48) as char
    } else {
        (v + 87) as char
    }
}

impl Color {
    pub fn new(red: u8, green: u8, blue: u8) -> (c: Color)
        ensures
            c == (Color { red, green, blue }),
    {
        Color { red, green, blue }
    }

    /// Renders the color as `#rrggbb`.
    pub fn to_hex(&self) -> (s: String)
        ensures
            s@ == hex_chars(*self),
    {
        let mut s = String::new();
        push_char(&mut s, '#');
        push_char(&mut s, hex_digit_char(self.red / 16));
        push_char(&mut s, hex_digit_char(self.red % 16));
        push_char(&mut s, hex_digit_char(self.green / 16));
        push_char(&mut s, hex_digit_char(self.green % 16));
        push_char(&mut s, hex_digit_char(self.blue / 16));
        push_char(&mut s, hex_digit_char(self.blue % 16));
        proof {
            assert(s@ =~= hex_chars(*self));
        }
        s
    }
}

} // verus!
