//! Building blocks for rendering numbers and characters into text.

use vstd::prelude::*;

verus! {

/// Relies on std's `String::push`: appends exactly one character.
#[verifier::external_body]
pub fn push_char(s: &mut String, c: char)
    ensures
        final(s)@ == old(s)@.push(c),
{
    s.push(c);
}

/// The character for one decimal digit.
pub open spec fn dec_digit(v: int) -> char {
    ((v + 48) as u8) as char
}

/// The decimal digits of `n`, most significant first, with no leading zeros.
pub open spec fn dec_chars(n: nat) -> Seq<char>
    decreases n,
{
    if n < 10 {
        seq![dec_digit(n as int)]
    } else {
        dec_chars(n / 10) + seq![dec_digit((n % 10) as int)]
    }
}

fn dec_digit_char(v: u8) -> (c: char)
    requires
        v < 10,
    ensures
        c == dec_digit(v as int),
{
    (v + 48) as char
}

/// Renders `n` in decimal.
pub fn u64_to_dec(n: u64) -> (s: String)
    ensures
        s@ == dec_chars(n as nat),
    decreases n,
{
    if n < 10 {
        let mut s = String::new();
        push_char(&mut s, dec_digit_char(n as u8));
        proof {
            assert(s@ =~= dec_chars(n as nat));
        }
        s
    } else {
        let mut s = u64_to_dec(n / 10);
        push_char(&mut s, dec_digit_char((n % 10) as u8));
        proof {
            assert(s@ =~= dec_chars(n as nat));
        }
        s
    }
}

/// Renders `n` in decimal.
pub fn u32_to_dec(n: u32) -> (s: String)
    ensures
        s@ == dec_chars(n as nat),
{
    u64_to_dec(n as u64)
}

/// Two decimal digits, zero padded.
pub open spec fn two_digit_chars(n: int) -> Seq<char> {
    seq![dec_digit(n / 10), dec_digit(n % 10)]
}

/// Appends `n` as two zero-padded decimal digits.
pub fn push_two_digits(s: &mut String, n: u8)
    requires
        n < 100,
    ensures
        final(s)@ == old(s)@ + two_digit_chars(n as int),
{
    push_char(s, dec_digit_char(n / 10));
    push_char(s, dec_digit_char(n % 10));
    proof {
        assert(s@ =~= old(s)@ + two_digit_chars(n as int));
    }
}

/// `v` divided by `scale`, with one decimal place, truncated.
pub open spec fn scaled_chars(v: nat, scale: nat) -> Seq<char> {
    dec_chars(v / scale) + seq!['.', dec_digit(((v % scale) * 10 / (scale as nat)) as int)]
}

/// The quantity text: the value brought under 1000 by a decimal prefix,
/// shown with one (truncated) decimal place, a space, the prefix letter if
/// any, and the unit.
pub open spec fn quantity_chars(v: nat, unit: Seq<char>) -> Seq<char> {
    if v < 1000 {
        scaled_chars(v, 1) + seq![' '] + unit
    } else if v < 1000000 {
        scaled_chars(v, 1000) + seq![' ', 'k'] + unit
    } else if v < 1000000000 {
        scaled_chars(v, 1000000) + seq![' ', 'M'] + unit
    } else if v < 1000000000000 {
        scaled_chars(v, 1000000000) + seq![' ', 'G'] + unit
    } else if v < 1000000000000000 {
        scaled_chars(v, 1000000000000) + seq![' ', 'T'] + unit
    } else if v < 1000000000000000000 {
        scaled_chars(v, 1000000000000000) + seq![' ', 'P'] + unit
    } else {
        scaled_chars(v, 1000000000000000000) + seq![' ', 'E'] + unit
    }
}

fn push_scaled(s: &mut String, v: u64, scale: u64)
    requires
        0 < scale <= 1000000000000000000,
    ensures
        final(s)@ == old(s)@ + scaled_chars(v as nat, scale as nat),
{
    let whole = v / scale;
    let rem = v % scale;
    let tenths = rem * 10 / scale;
    proof {
        assert((rem as int) * 10 / (scale as int) < 10) by (nonlinear_arith)
            requires
                rem < scale,
                scale > 0,
        ;
    }
    let w = u64_to_dec(whole);
    s.append(w.as_str());
    push_char(s, '.');
    push_char(s, dec_digit_char(tenths as u8));
    proof {
        assert(s@ =~= old(s)@ + scaled_chars(v as nat, scale as nat));
    }
}

/// Renders a byte-like quantity with a decimal prefix: `"512.0 B"`,
/// `"1.5 GB"`.
pub fn format_quantity(v: u64, unit: &str) -> (s: String)
    ensures
        s@ == quantity_chars(v as nat, unit@),
{
    let mut s = String::new();
    let scale: u64;
    let prefix: Option<char>;
    if v < 1000 {
        scale = 1;
        prefix = None;
    } else if v < 1000000 {
        scale = 1000;
        prefix = Some('k');
    } else if v < 1000000000 {
        scale = 1000000;
        prefix = Some('M');
    } else if v < 1000000000000 {
        scale = 1000000000;
        prefix = Some('G');
    } else if v < 1000000000000000 {
        scale = 1000000000000;
        prefix = Some('T');
    } else if v < 1000000000000000000 {
        scale = 1000000000000000;
        prefix = Some('P');
    } else {
        scale = 1000000000000000000;
        prefix = Some('E');
    }
    push_scaled(&mut s, v, scale);
    push_char(&mut s, ' ');
    match prefix {
        Some(p) => push_char(&mut s, p),
        None => {},
    }
    s.append(unit);
    proof {
        assert(s@ =~= quantity_chars(v as nat, unit@));
    }
    s
}

} // verus!
