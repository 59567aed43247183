//! Rendering the calendar date.

use vstd::prelude::*;

use crate::block::Block;
use crate::color::Color;
use crate::message::Message;
use crate::text::{push_char, push_two_digits, two_digit_chars};

verus! {

/// A day of the week.
#[derive(Clone, Copy, Debug, Eq, PartialEq, Structural)]
pub enum Weekday {
    Monday,
    Tuesday,
    Wednesday,
    Thursday,
    Friday,
    Saturday,
    Sunday,
}

/// A calendar date as the date view shows it: weekday, month and day.
#[derive(Clone, Copy, Debug, Eq, PartialEq, Structural)]
pub struct CalendarDate {
    pub weekday: Weekday,
    /// Month number, 1 through 12.
    pub month: u8,
    /// Day of the month, 1 through 31.
    pub day: u8,
}

pub open spec fn date_wf(d: CalendarDate) -> bool {
    1 <= d.month <= 12 && 1 <= d.day <= 31
}

pub open spec fn weekday_chars(w: Weekday) -> Seq<char> {
    match w {
        Weekday::Monday => seq!['M', 'o', 'n'],
        Weekday::Tuesday => seq!['T', 'u', 'e'],
        Weekday::Wednesday => seq!['W', 'e', 'd'],
        Weekday::Thursday => seq!['T', 'h', 'u'],
        Weekday::Friday => seq!['F', 'r', 'i'],
        Weekday::Saturday => seq!['S', 'a', 't'],
        Weekday::Sunday => seq!['S', 'u', 'n'],
    }
}

pub open spec fn month_chars(m: int) -> Seq<char> {
    if m == 1 {
        seq!['J', 'a', 'n']
    } else if m == 2 {
        seq!['F', 'e', 'b']
    } else if m == 3 {
        seq!['M', 'a', 'r']
    } else if m == 4 {
        seq!['A', 'p', 'r']
    } else if m == 5 {
        seq!['M', 'a', 'y']
    } else if m == 6 {
        seq!['J', 'u', 'n']
    } else if m == 7 {
        seq!['J', 'u', 'l']
    } else if m == 8 {
        seq!['A', 'u', 'g']
    } else if m == 9 {
        seq!['S', 'e', 'p']
    } else if m == 10 {
        seq!['O', 'c', 't']
    } else if m == 11 {
        seq!['N', 'o', 'v']
    } else {
        seq!['D', 'e', 'c']
    }
}

/// The date block's text: abbreviated weekday, abbreviated month, and the
/// two-digit day.
pub open spec fn date_text(d: CalendarDate) -> Seq<char> {
    weekday_chars(d.weekday) + seq![' '] + month_chars(d.month as int) + seq![' ']
        + two_digit_chars(d.day as int)
}

fn push_weekday(s: &mut String, w: Weekday)
    ensures
        final(s)@ == old(s)@ + weekday_chars(w),
{
    match w {
        Weekday::Monday => {
            push_char(s, 'M');
            push_char(s, 'o');
            push_char(s, 'n');
        },
        Weekday::Tuesday => {
            push_char(s, 'T');
            push_char(s, 'u');
            push_char(s, 'e');
        },
        Weekday::Wednesday => {
            push_char(s, 'W');
            push_char(s, 'e');
            push_char(s, 'd');
        },
        Weekday::Thursday => {
            push_char(s, 'T');
            push_char(s, 'h');
            push_char(s, 'u');
        },
        Weekday::Friday => {
            push_char(s, 'F');
            push_char(s, 'r');
            push_char(s, 'i');
        },
        Weekday::Saturday => {
            push_char(s, 'S');
            push_char(s, 'a');
            push_char(s, 't');
        },
        Weekday::Sunday => {
            push_char(s, 'S');
            push_char(s, 'u');
            push_char(s, 'n');
        },
    }
    proof {
        assert(s@ =~= old(s)@ + weekday_chars(w));
    }
}

fn push_month(s: &mut String, m: u8)
    requires
        1 <= m <= 12,
    ensures
        final(s)@ == old(s)@ + month_chars(m as int),
{
    match m {
        1 => {
            push_char(s, 'J');
            push_char(s, 'a');
            push_char(s, 'n');
        },
        2 => {
            push_char(s, 'F');
            push_char(s, 'e');
            push_char(s, 'b');
        },
        3 => {
            push_char(s, 'M');
            push_char(s, 'a');
            push_char(s, 'r');
        },
        4 => {
            push_char(s, 'A');
            push_char(s, 'p');
            push_char(s, 'r');
        },
        5 => {
            push_char(s, 'M');
            push_char(s, 'a');
            push_char(s, 'y');
        },
        6 => {
            push_char(s, 'J');
            push_char(s, 'u');
            push_char(s, 'n');
        },
        7 => {
            push_char(s, 'J');
            push_char(s, 'u');
            push_char(s, 'l');
        },
        8 => {
            push_char(s, 'A');
            push_char(s, 'u');
            push_char(s, 'g');
        },
        9 => {
            push_char(s, 'S');
            push_char(s, 'e');
            push_char(s, 'p');
        },
        10 => {
            push_char(s, 'O');
            push_char(s, 'c');
            push_char(s, 't');
        },
        11 => {
            push_char(s, 'N');
            push_char(s, 'o');
            push_char(s, 'v');
        },
        _ => {
            push_char(s, 'D');
            push_char(s, 'e');
            push_char(s, 'c');
        },
    }
    proof {
        assert(s@ =~= old(s)@ + month_chars(m as int));
    }
}

/// Renders a calendar date.
pub struct DateView<M> {
    pub date: CalendarDate,
    pub message: M,
    pub foreground: Color,
}

impl<M> DateView<M> {
    pub fn new(date: CalendarDate, message: M, foreground: Color) -> (v: DateView<M>)
        ensures
            v == (DateView { date, message, foreground }),
    {
        DateView { date, message, foreground }
    }
}

impl<M: Message> DateView<M> {
    /// The block for this date.
    pub fn render(&self) -> (b: Block<M>)
        requires
            date_wf(self.date),
        ensures
            b.message == self.message,
            b.text@ == date_text(self.date),
            b.foreground == self.foreground,
            b.background is None,
            b.border is None,
    {
        let mut text = String::new();
        push_weekday(&mut text, self.date.weekday);
        push_char(&mut text, ' ');
        push_month(&mut text, self.date.month);
        push_char(&mut text, ' ');
        push_two_digits(&mut text, self.date.day);
        proof {
            assert(text@ =~= date_text(self.date));
        }
        Block {
            message: self.message.duplicate(),
            text,
            foreground: self.foreground,
            background: None,
            border: None,
        }
    }
}

} // verus!
