//! Small display helpers shared by the views.

use vstd::prelude::*;

verus! {

/// The pie-chart glyph for a slice index from zero (empty) to eight (full).
pub open spec fn pie_symbol(i: int) -> char {
    if i == 0 {
        '\u{f0130}'
    } else if i == 1 {
        '\u{f0a9e}'
    } else if i == 2 {
        '\u{f0a9f}'
    } else if i == 3 {
        '\u{f0aa0}'
    } else if i == 4 {
        '\u{f0aa1}'
    } else if i == 5 {
        '\u{f0aa2}'
    } else if i == 6 {
        '\u{f0aa3}'
    } else if i == 7 {
        '\u{f0aa4}'
    } else {
        '\u{f0aa5}'
    }
}

/// The slice index for a percentage: nine even steps, capped at the last.
pub open spec fn pie_index(percentage: int) -> int {
    let i = percentage * 9 / 100;
    if i > 8 {
        8
    } else {
        i
    }
}

/// A one-character pie chart of a percentage.
pub fn pie_chart(percentage: u32) -> (c: char)
    ensures
        c == pie_symbol(pie_index(percentage as int)),
{
    let i = percentage as u64 * 9 / 100;
    let i = if i > 8 {
        8u64
    } else {
        i
    };
    match i {
        0 => '\u{f0130}',
        1 => '\u{f0a9e}',
        2 => '\u{f0a9f}',
        3 => '\u{f0aa0}',
        4 => '\u{f0aa1}',
        5 => '\u{f0aa2}',
        6 => '\u{f0aa3}',
        7 => '\u{f0aa4}',
        _ => '\u{f0aa5}',
    }
}

} // verus!
