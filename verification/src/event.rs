//! Decoding click events from line-oriented input.
//!
//! Each input line is one JSON object carrying at least a `name` (the
//! encoded message) and a numeric `button`; lines may be wrapped in the
//! protocol's separator commas. The grammar here is the input protocol's:
//! one flat object whose values are strings, integers, `true`, `false`,
//! `null`, or flat arrays of those; unknown members are skipped. A line that
//! fails at any stage stands for no event and is simply dropped, never an
//! error.

use vstd::prelude::*;

use crate::base64::{b64_decoded, valid_b64};
use crate::codec::{decode, encoded_chars, DecodeError};
use crate::message::Message;
use crate::text::push_char;

verus! {

/// A decoded click event: the message of the block that was clicked, and
/// which mouse button was used.
#[derive(Clone, Debug, PartialEq)]
pub struct Event<M> {
    pub message: M,
    pub button: MouseButton,
}

/// The closed set of mouse buttons the protocol knows.
#[derive(Clone, Copy, Debug, Eq, Hash, PartialEq, Structural)]
pub enum MouseButton {
    Left,
    Middle,
    Right,
    Down,
    Up,
}

/// The button a wire code stands for; codes outside the table stand for
/// nothing.
pub open spec fn button_of(n: u32) -> Option<MouseButton> {
    if n == 1 {
        Some(MouseButton::Left)
    } else if n == 2 {
        Some(MouseButton::Middle)
    } else if n == 3 {
        Some(MouseButton::Right)
    } else if n == 4 {
        Some(MouseButton::Down)
    } else if n == 5 {
        Some(MouseButton::Up)
    } else {
        None
    }
}

/// Maps a wire button code through the closed lookup table.
pub fn parse_button(n: u32) -> (r: Option<MouseButton>)
    ensures
        r == button_of(n),
{
    match n {
        1 => Some(MouseButton::Left),
        2 => Some(MouseButton::Middle),
        3 => Some(MouseButton::Right),
        4 => Some(MouseButton::Down),
        5 => Some(MouseButton::Up),
        _ => None,
    }
}

// --- the input line grammar, as total functions over character positions ---

pub open spec fn is_ws_char(c: char) -> bool {
    c == ' ' || c == '\t' || c == '\n' || c == '\r'
}

pub open spec fn dec_val(c: char) -> int {
    if 48 <= c as int <= 57 {
        c as int - 48
    } else {
        -1
    }
}

pub open spec fn is_digit_char(c: char) -> bool {
    dec_val(c) >= 0
}

pub open spec fn hex_val(c: char) -> int {
    if 48 <= c as int <= 57 {
        c as int - 48
    } else if 97 <= c as int <= 102 {
        c as int - 87
    } else if 65 <= c as int <= 70 {
        c as int - 55
    } else {
        -1
    }
}

/// The first position at or after `i` holding no whitespace.
pub open spec fn ws_end(s: Seq<char>, i: int) -> int
    decreases s.len() - i,
        when 0 <= i <= s.len()
{
    if i < s.len() && is_ws_char(s[i]) {
        ws_end(s, i + 1)
    } else {
        i
    }
}

pub proof fn lemma_ws_end(s: Seq<char>, i: int)
    requires
        0 <= i <= s.len(),
    ensures
        i <= ws_end(s, i) <= s.len(),
    decreases s.len() - i,
{
    if i < s.len() && is_ws_char(s[i]) {
        lemma_ws_end(s, i + 1);
    }
}

pub open spec fn is_simple_escape(c: char) -> bool {
    c == '"' || c == '\\' || c == '/' || c == 'b' || c == 'f' || c == 'n' || c == 'r' || c == 't'
}

/// What a simple escape stands for.
pub open spec fn escape_char(c: char) -> char {
    if c == 'b' {
        '\u{0008}'
    } else if c == 'f' {
        '\u{000c}'
    } else if c == 'n' {
        '\n'
    } else if c == 'r' {
        '\r'
    } else if c == 't' {
        '\t'
    } else {
        c
    }
}

/// The code of a `\uXXXX` escape whose four digits start at `i`.
pub open spec fn u_escape_code(s: Seq<char>, i: int) -> int {
    hex_val(s[i]) * 4096 + hex_val(s[i + 1]) * 256 + hex_val(s[i + 2]) * 16 + hex_val(s[i + 3])
}

/// Whether a `\uXXXX` escape with digits at `i` is acceptable: four hex
/// digits naming a code point that is no surrogate.
pub open spec fn valid_u_escape(s: Seq<char>, i: int) -> bool {
    &&& hex_val(s[i]) >= 0
    &&& hex_val(s[i + 1]) >= 0
    &&& hex_val(s[i + 2]) >= 0
    &&& hex_val(s[i + 3]) >= 0
    &&& !(0xD800 <= u_escape_code(s, i) < 0xE000)
}

/// The position after the closing quote of a string body starting at `i`
/// (just after the opening quote), or -1 if the body is malformed.
pub open spec fn str_body_end(s: Seq<char>, i: int) -> int
    decreases s.len() - i,
        when 0 <= i <= s.len()
{
    if i >= s.len() {
        -1
    } else if s[i] == '"' {
        i + 1
    } else if s[i] == '\\' {
        if i + 2 <= s.len() && is_simple_escape(s[i + 1]) {
            str_body_end(s, i + 2)
        } else if i + 6 <= s.len() && s[i + 1] == 'u' && valid_u_escape(s, i + 2) {
            str_body_end(s, i + 6)
        } else {
            -1
        }
    } else if (s[i] as int) < 32 {
        -1
    } else {
        str_body_end(s, i + 1)
    }
}

/// The unescaped text of a string body starting at `i`; meaningful only
/// where `str_body_end` accepts.
pub open spec fn str_body_content(s: Seq<char>, i: int) -> Seq<char>
    decreases s.len() - i,
        when 0 <= i <= s.len()
{
    if i >= s.len() {
        Seq::empty()
    } else if s[i] == '"' {
        Seq::empty()
    } else if s[i] == '\\' {
        if i + 2 <= s.len() && is_simple_escape(s[i + 1]) {
            seq![escape_char(s[i + 1])] + str_body_content(s, i + 2)
        } else if i + 6 <= s.len() && s[i + 1] == 'u' && valid_u_escape(s, i + 2) {
            seq![(u_escape_code(s, i + 2) as char)] + str_body_content(s, i + 6)
        } else {
            Seq::empty()
        }
    } else if (s[i] as int) < 32 {
        Seq::empty()
    } else {
        seq![s[i]] + str_body_content(s, i + 1)
    }
}

pub proof fn lemma_str_body_end(s: Seq<char>, i: int)
    requires
        0 <= i <= s.len(),
    ensures
        str_body_end(s, i) == -1 || i < str_body_end(s, i) <= s.len(),
    decreases s.len() - i,
{
    if i >= s.len() {
    } else if s[i] == '"' {
    } else if s[i] == '\\' {
        if i + 2 <= s.len() && is_simple_escape(s[i + 1]) {
            lemma_str_body_end(s, i + 2);
        } else if i + 6 <= s.len() && s[i + 1] == 'u' && valid_u_escape(s, i + 2) {
            lemma_str_body_end(s, i + 6);
        }
    } else if (s[i] as int) < 32 {
    } else {
        lemma_str_body_end(s, i + 1);
    }
}

/// The first position at or after `i` holding no decimal digit.
pub open spec fn digits_end(s: Seq<char>, i: int) -> int
    decreases s.len() - i,
        when 0 <= i <= s.len()
{
    if i < s.len() && is_digit_char(s[i]) {
        digits_end(s, i + 1)
    } else {
        i
    }
}

pub proof fn lemma_digits_end(s: Seq<char>, i: int)
    requires
        0 <= i <= s.len(),
    ensures
        i <= digits_end(s, i) <= s.len(),
    decreases s.len() - i,
{
    if i < s.len() && is_digit_char(s[i]) {
        lemma_digits_end(s, i + 1);
    }
}

/// The value of the digit run `s[i..j)`.
pub open spec fn digits_val(s: Seq<char>, i: int, j: int) -> int
    decreases j - i,
        when i <= j
{
    if j <= i {
        0
    } else {
        digits_val(s, i, j - 1) * 10 + dec_val(s[j - 1])
    }
}

/// The position after a JSON number starting at `i` (an optional minus sign
/// and at least one digit), or -1.
pub open spec fn num_end(s: Seq<char>, i: int) -> int {
    let st = if 0 <= i < s.len() && s[i] == '-' {
        i + 1
    } else {
        i
    };
    if 0 <= st < s.len() && is_digit_char(s[st]) {
        digits_end(s, st)
    } else {
        -1
    }
}

pub proof fn lemma_num_end(s: Seq<char>, i: int)
    requires
        0 <= i <= s.len(),
    ensures
        num_end(s, i) == -1 || i < num_end(s, i) <= s.len(),
{
    let st = if i < s.len() && s[i] == '-' {
        i + 1
    } else {
        i
    };
    if st < s.len() && is_digit_char(s[st]) {
        assert(digits_end(s, st) == digits_end(s, st + 1));
        lemma_digits_end(s, st + 1);
    }
}

/// The position after `true`, `false` or `null` starting at `i`, or -1.
pub open spec fn lit_end(s: Seq<char>, i: int) -> int {
    if i + 4 <= s.len() && s.subrange(i, i + 4) == seq!['t', 'r', 'u', 'e'] {
        i + 4
    } else if i + 5 <= s.len() && s.subrange(i, i + 5) == seq!['f', 'a', 'l', 's', 'e'] {
        i + 5
    } else if i + 4 <= s.len() && s.subrange(i, i + 4) == seq!['n', 'u', 'l', 'l'] {
        i + 4
    } else {
        -1
    }
}

/// The position after a scalar value (string, number or literal) starting
/// at `i`, or -1.
pub open spec fn scalar_end(s: Seq<char>, i: int) -> int {
    if i >= s.len() {
        -1
    } else if s[i] == '"' {
        str_body_end(s, i + 1)
    } else if s[i] == '-' || is_digit_char(s[i]) {
        num_end(s, i)
    } else {
        lit_end(s, i)
    }
}

pub proof fn lemma_scalar_end(s: Seq<char>, i: int)
    requires
        0 <= i <= s.len(),
    ensures
        scalar_end(s, i) == -1 || i < scalar_end(s, i) <= s.len(),
{
    if i < s.len() {
        if s[i] == '"' {
            lemma_str_body_end(s, i + 1);
        } else if s[i] == '-' || is_digit_char(s[i]) {
            lemma_num_end(s, i);
        }
    }
}

/// The position after the closing bracket of a non-empty array whose first
/// element starts at `i`, or -1. Array elements are scalars.
pub open spec fn arr_items_end(s: Seq<char>, i: int) -> int
    decreases s.len() - i,
        when 0 <= i <= s.len()
{
    let e = scalar_end(s, i);
    if e < 0 {
        -1
    } else {
        proof {
            lemma_scalar_end(s, i);
            lemma_ws_end(s, e);
        }
        let j = ws_end(s, e);
        if j < s.len() && s[j] == ',' {
            proof {
                lemma_ws_end(s, j + 1);
            }
            arr_items_end(s, ws_end(s, j + 1))
        } else if j < s.len() && s[j] == ']' {
            j + 1
        } else {
            -1
        }
    }
}

pub proof fn lemma_arr_items_end(s: Seq<char>, i: int)
    requires
        0 <= i <= s.len(),
    ensures
        arr_items_end(s, i) == -1 || i < arr_items_end(s, i) <= s.len(),
    decreases s.len() - i,
{
    let e = scalar_end(s, i);
    if e >= 0 {
        lemma_scalar_end(s, i);
        lemma_ws_end(s, e);
        let j = ws_end(s, e);
        if j < s.len() && s[j] == ',' {
            lemma_ws_end(s, j + 1);
            lemma_arr_items_end(s, ws_end(s, j + 1));
        }
    }
}

/// The position after any member value starting at `i` (a scalar, or a flat
/// array of scalars), or -1.
pub open spec fn value_end(s: Seq<char>, i: int) -> int
    recommends
        0 <= i <= s.len(),
{
    if i < s.len() && s[i] == '[' {
        let j = ws_end(s, i + 1);
        if j < s.len() && s[j] == ']' {
            j + 1
        } else {
            arr_items_end(s, j)
        }
    } else {
        scalar_end(s, i)
    }
}

pub proof fn lemma_value_end(s: Seq<char>, i: int)
    requires
        0 <= i <= s.len(),
    ensures
        value_end(s, i) == -1 || i < value_end(s, i) <= s.len(),
{
    if i < s.len() && s[i] == '[' {
        lemma_ws_end(s, i + 1);
        let j = ws_end(s, i + 1);
        if !(j < s.len() && s[j] == ']') {
            lemma_arr_items_end(s, j);
        }
    } else {
        lemma_scalar_end(s, i);
    }
}

/// Walks the members of the event object from a key expected at `i`,
/// collecting the `name` and `button` members; yields the collected members
/// and the position after the closing brace, or nothing if the object is
/// malformed, a known member has the wrong type, `button` is no integer in
/// range, or a known member repeats.
pub open spec fn members_parse(
    s: Seq<char>,
    i: int,
    name: Option<Seq<char>>,
    button: Option<int>,
) -> Option<(Option<Seq<char>>, Option<int>, int)>
    decreases s.len() - i, 1int,
        when 0 <= i <= s.len()
{
    if i >= s.len() || s[i] != '"' {
        None
    } else {
        let kend = str_body_end(s, i + 1);
        if kend < 0 {
            None
        } else {
            proof {
                lemma_str_body_end(s, i + 1);
                lemma_ws_end(s, kend);
            }
            let key = str_body_content(s, i + 1);
            let j = ws_end(s, kend);
            if j >= s.len() || s[j] != ':' {
                None
            } else {
                proof {
                    lemma_ws_end(s, j + 1);
                }
                let v = ws_end(s, j + 1);
                if key == "name"@ {
                    if name is Some {
                        None
                    } else if v < s.len() && s[v] == '"' {
                        let vend = str_body_end(s, v + 1);
                        if vend < 0 {
                            None
                        } else {
                            proof {
                                lemma_str_body_end(s, v + 1);
                            }
                            members_after_value(s, vend, Some(str_body_content(s, v + 1)), button)
                        }
                    } else {
                        None
                    }
                } else if key == "button"@ {
                    if button is Some {
                        None
                    } else if v < s.len() && is_digit_char(s[v]) {
                        let vend = num_end(s, v);
                        if vend < 0 {
                            None
                        } else if digits_val(s, v, vend) > u32::MAX {
                            None
                        } else {
                            proof {
                                lemma_num_end(s, v);
                            }
                            members_after_value(s, vend, name, Some(digits_val(s, v, vend)))
                        }
                    } else {
                        None
                    }
                } else {
                    let vend = value_end(s, v);
                    if vend < 0 {
                        None
                    } else {
                        proof {
                            lemma_value_end(s, v);
                        }
                        members_after_value(s, vend, name, button)
                    }
                }
            }
        }
    }
}

/// After a member's value ending at `i`: either a comma and another member,
/// or the closing brace.
pub open spec fn members_after_value(
    s: Seq<char>,
    i: int,
    name: Option<Seq<char>>,
    button: Option<int>,
) -> Option<(Option<Seq<char>>, Option<int>, int)>
    decreases s.len() - i, 0int,
        when 0 <= i <= s.len()
{
    proof {
        lemma_ws_end(s, i);
    }
    let j = ws_end(s, i);
    if j < s.len() && s[j] == ',' {
        proof {
            lemma_ws_end(s, j + 1);
        }
        members_parse(s, ws_end(s, j + 1), name, button)
    } else if j < s.len() && s[j] == '}' {
        Some((name, button, j + 1))
    } else {
        None
    }
}

/// Strips the wire separator commas from both ends of a line.
pub open spec fn trim_commas(s: Seq<char>) -> Seq<char>
    decreases s.len(),
{
    if s.len() > 0 && s[0] == ',' {
        trim_commas(s.skip(1))
    } else if s.len() > 0 && s.last() == ',' {
        trim_commas(s.drop_last())
    } else {
        s
    }
}

/// Parses one comma-trimmed line as the event object: the whole line is one
/// JSON object, and both `name` and `button` are present. Yields the name's
/// text and the button code.
pub open spec fn parse_event_line(s: Seq<char>) -> Option<(Seq<char>, int)> {
    let i = ws_end(s, 0);
    if i < s.len() && s[i] == '{' {
        let j = ws_end(s, i + 1);
        let m = if j < s.len() && s[j] == '}' {
            Some((None::<Seq<char>>, None::<int>, j + 1))
        } else {
            members_parse(s, j, None, None)
        };
        match m {
            None => None,
            Some((name, button, e)) => {
                if 0 <= e <= s.len() && ws_end(s, e) == s.len() {
                    match (name, button) {
                        (Some(n), Some(b)) => Some((n, b)),
                        _ => None,
                    }
                } else {
                    None
                }
            },
        }
    } else {
        None
    }
}

/// Whether `ev` is the event a raw input line stands for.
pub open spec fn event_for_line<M: Message>(line: Seq<char>, ev: Event<M>) -> bool {
    match parse_event_line(trim_commas(line)) {
        Some((name, b)) => encoded_chars(ev.message) == name && button_of(b as u32) == Some(
            ev.button,
        ),
        None => false,
    }
}

/// Whether a raw input line stands for no event of message type `M`: it
/// fails to parse, its button code is unmapped, or its name does not decode.
pub open spec fn line_undecodable<M: Message>(line: Seq<char>) -> bool {
    match parse_event_line(trim_commas(line)) {
        None => true,
        Some((name, b)) => button_of(b as u32) is None || !valid_b64(name) || (forall|m: M|
            b64_decoded(name) != m.bytes_of()),
    }
}

// --- the executable parser, one piece per grammar function ---

/// Relies on std's char::from_u32: yields the character with this scalar
/// value, which exists for every non-surrogate code below 0x110000.
#[verifier::external_body]
fn char_from_code(u: u32) -> (c: char)
    requires
        u < 0xD800 || (0xE000 <= u && u < 0x110000),
    ensures
        c as u32 == u,
{
    match char::from_u32(u) {
        Some(c) => c,
        None => ' ',
    }
}

fn is_ctrl_at(c: char) -> (r: bool)
    ensures
        r == ((c as int) < 32),
{
    (c as u32) < 32
}

fn digit_val_at(c: char) -> (v: u8)
    requires
        is_digit_char(c),
    ensures
        v as int == dec_val(c),
{
    (c as u32 - 48) as u8
}

fn is_ws_at(c: char) -> (r: bool)
    ensures
        r == is_ws_char(c),
{
    c == ' ' || c == '\t' || c == '\n' || c == '\r'
}

fn is_digit_at(c: char) -> (r: bool)
    ensures
        r == is_digit_char(c),
{
    let u = c as u32;
    48 <= u && u <= 57
}

#[verifier::loop_isolation(false)]
fn skip_ws(cs: &Vec<char>, i: usize) -> (r: usize)
    requires
        i <= cs@.len(),
    ensures
        r == ws_end(cs@, i as int),
        i <= r <= cs@.len(),
{
    let mut j = i;
    while j < cs.len() && is_ws_at(cs[j])
        invariant
            i <= j <= cs@.len(),
            ws_end(cs@, i as int) == ws_end(cs@, j as int),
        decreases cs@.len() - j,
    {
        j = j + 1;
    }
    j
}

/// The value of a hexadecimal digit, with 255 for anything else.
fn hex_val_at(c: char) -> (v: u8)
    ensures
        hex_val(c) >= 0 ==> v == hex_val(c),
        hex_val(c) < 0 ==> v == 255,
{
    let u = c as u32;
    if 48 <= u && u <= 57 {
        (u - 48) as u8
    } else if 97 <= u && u <= 102 {
        (u - 87) as u8
    } else if 65 <= u && u <= 70 {
        (u - 55) as u8
    } else {
        255
    }
}

fn escape_char_at(c: char) -> (r: char)
    ensures
        r == escape_char(c),
{
    match c {
        'b' => '\u{0008}',
        'f' => '\u{000c}',
        'n' => '\n',
        'r' => '\r',
        't' => '\t',
        _ => c,
    }
}

fn is_simple_escape_at(c: char) -> (r: bool)
    ensures
        r == is_simple_escape(c),
{
    c == '"' || c == '\\' || c == '/' || c == 'b' || c == 'f' || c == 'n' || c == 'r' || c == 't'
}

/// Reads a string body beginning right after its opening quote, unescaping
/// as it goes; yields the content and the position after the closing quote.
#[verifier::loop_isolation(false)]
fn read_str_body(cs: &Vec<char>, i: usize) -> (r: Option<(String, usize)>)
    requires
        i <= cs@.len(),
    ensures
        match r {
            Some(ce) => {
                &&& str_body_end(cs@, i as int) == ce.1 as int
                &&& ce.0@ == str_body_content(cs@, i as int)
                &&& i < ce.1 <= cs@.len()
            },
            None => str_body_end(cs@, i as int) == -1,
        },
{
    let s = cs;
    let mut acc = String::new();
    let mut j = i;
    proof {
        assert(acc@ + str_body_content(s@, i as int) =~= str_body_content(s@, i as int));
    }
    loop
        invariant
            s@ == cs@,
            i <= j <= s@.len(),
            str_body_end(s@, i as int) == str_body_end(s@, j as int),
            str_body_content(s@, i as int) == acc@ + str_body_content(s@, j as int),
        decreases s@.len() - j,
    {
        if j >= s.len() {
            return None;
        }
        let c = s[j];
        if c == '"' {
            proof {
                lemma_str_body_end(s@, i as int);
                assert(str_body_content(s@, j as int) == Seq::<char>::empty());
                assert(acc@ =~= str_body_content(s@, i as int));
            }
            return Some((acc, j + 1));
        }
        if c == '\\' {
            if s.len() - j >= 2 && is_simple_escape_at(s[j + 1]) {
                push_char(&mut acc, escape_char_at(s[j + 1]));
                j = j + 2;
            } else if s.len() - j >= 6 && s[j + 1] == 'u' {
                let h0 = hex_val_at(s[j + 2]);
                let h1 = hex_val_at(s[j + 3]);
                let h2 = hex_val_at(s[j + 4]);
                let h3 = hex_val_at(s[j + 5]);
                if h0 == 255 || h1 == 255 || h2 == 255 || h3 == 255 {
                    proof {
                        assert(!valid_u_escape(s@, j + 2));
                    }
                    return None;
                }
                let code: u32 = (h0 as u32) * 4096 + (h1 as u32) * 256 + (h2 as u32) * 16 + (
                h3 as u32);
                proof {
                    assert(code == u_escape_code(s@, j + 2));
                }
                if 0xD800 <= code && code < 0xE000 {
                    proof {
                        assert(!valid_u_escape(s@, j + 2));
                    }
                    return None;
                }
                let c2 = char_from_code(code);
                proof {
                    vstd::utf8::char_u32_cast(c2, code);
                    assert(c2 == (u_escape_code(s@, j + 2) as char));
                }
                push_char(&mut acc, c2);
                j = j + 6;
            } else {
                return None;
            }
        } else if is_ctrl_at(c) {
            return None;
        } else {
            push_char(&mut acc, c);
            j = j + 1;
        }
        proof {
            assert(str_body_content(s@, i as int) =~= acc@ + str_body_content(s@, j as int));
        }
    }
}

/// Scans past a string body without keeping its text.
fn scan_str_body(cs: &Vec<char>, i: usize) -> (r: Option<usize>)
    requires
        i <= cs@.len(),
    ensures
        match r {
            Some(e) => str_body_end(cs@, i as int) == e as int && i < e <= cs@.len(),
            None => str_body_end(cs@, i as int) == -1,
        },
{
    match read_str_body(cs, i) {
        Some(ce) => Some(ce.1),
        None => None,
    }
}

/// Scans past the digits from `i`, keeping the run's value as long as it
/// stays in range for a wire button code.
#[verifier::loop_isolation(false)]
fn scan_digits(cs: &Vec<char>, i: usize) -> (r: (Option<u32>, usize))
    requires
        i <= cs@.len(),
    ensures
        r.1 as int == digits_end(cs@, i as int),
        i <= r.1 <= cs@.len(),
        match r.0 {
            Some(v) => digits_val(cs@, i as int, r.1 as int) == v,
            None => digits_val(cs@, i as int, r.1 as int) > u32::MAX,
        },
{
    let s = cs;
    let mut j = i;
    let mut acc: u64 = 0;
    let mut over = false;
    while j < s.len() && is_digit_at(s[j])
        invariant
            s@ == cs@,
            i <= j <= s@.len(),
            digits_end(s@, i as int) == digits_end(s@, j as int),
            !over ==> acc == digits_val(s@, i as int, j as int) && acc <= u32::MAX,
            over ==> digits_val(s@, i as int, j as int) > u32::MAX,
        decreases s@.len() - j,
    {
        let d = digit_val_at(s[j]) as u64;
        proof {
            assert(is_digit_char(s@[j as int]));
            assert(d == dec_val(s@[j as int]));
            assert(digits_val(s@, i as int, j + 1) == digits_val(s@, i as int, j as int) * 10
                + dec_val(s@[j as int]));
        }
        if !over {
            let next = acc * 10 + d;
            if next > 0xFFFF_FFFF {
                over = true;
            } else {
                acc = next;
            }
        } else {
            proof {
                let v = digits_val(s@, i as int, j as int);
                assert(v > u32::MAX);
                assert(v * 10 + dec_val(s@[j as int]) > u32::MAX);
            }
        }
        j = j + 1;
    }
    if over {
        (None, j)
    } else {
        (Some(acc as u32), j)
    }
}

/// Scans past a number without keeping its value.
fn scan_number(cs: &Vec<char>, i: usize) -> (r: Option<usize>)
    requires
        i <= cs@.len(),
    ensures
        match r {
            Some(e) => num_end(cs@, i as int) == e as int && i < e <= cs@.len(),
            None => num_end(cs@, i as int) == -1,
        },
{
    let mut st = i;
    if i < cs.len() && cs[i] == '-' {
        st = i + 1;
    }
    if st < cs.len() && is_digit_at(cs[st]) {
        proof {
            assert(is_digit_char(cs@[st as int]));
            assert(digits_end(cs@, st as int) == digits_end(cs@, st + 1));
            lemma_digits_end(cs@, st + 1);
        }
        let de = scan_digits(cs, st);
        Some(de.1)
    } else {
        None
    }
}

/// Scans past `true`, `false` or `null`.
fn scan_literal(cs: &Vec<char>, i: usize) -> (r: Option<usize>)
    requires
        i <= cs@.len(),
    ensures
        match r {
            Some(e) => lit_end(cs@, i as int) == e as int && i < e <= cs@.len(),
            None => lit_end(cs@, i as int) == -1,
        },
{
    if cs.len() - i >= 4 && cs[i] == 't' && cs[i + 1] == 'r' && cs[i + 2] == 'u' && cs[i + 3]
        == 'e' {
        proof {
            assert(cs@.subrange(i as int, i + 4) =~= seq!['t', 'r', 'u', 'e']);
        }
        return Some(i + 4);
    }
    if cs.len() - i >= 5 && cs[i] == 'f' && cs[i + 1] == 'a' && cs[i + 2] == 'l' && cs[i + 3] == 's'
        && cs[i + 4] == 'e' {
        proof {
            assert(cs@.subrange(i as int, i + 5) =~= seq!['f', 'a', 'l', 's', 'e']);
        }
        return Some(i + 5);
    }
    if cs.len() - i >= 4 && cs[i] == 'n' && cs[i + 1] == 'u' && cs[i + 2] == 'l' && cs[i + 3]
        == 'l' {
        proof {
            assert(cs@.subrange(i as int, i + 4) =~= seq!['n', 'u', 'l', 'l']);
        }
        return Some(i + 4);
    }
    proof {
        if i + 4 <= cs@.len() && cs@.subrange(i as int, i + 4) == seq!['t', 'r', 'u', 'e'] {
            assert(cs@[i as int] == 't' && cs@[i + 1] == 'r' && cs@[i + 2] == 'u' && cs@[i + 3]
                == 'e');
        }
        if i + 5 <= cs@.len() && cs@.subrange(i as int, i + 5) == seq!['f', 'a', 'l', 's', 'e'] {
            assert(cs@[i as int] == 'f' && cs@[i + 1] == 'a' && cs@[i + 2] == 'l' && cs@[i + 3]
                == 's' && cs@[i + 4] == 'e');
        }
        if i + 4 <= cs@.len() && cs@.subrange(i as int, i + 4) == seq!['n', 'u', 'l', 'l'] {
            assert(cs@[i as int] == 'n' && cs@[i + 1] == 'u' && cs@[i + 2] == 'l' && cs@[i + 3]
                == 'l');
        }
    }
    None
}

/// Scans past one scalar value.
fn scan_scalar(cs: &Vec<char>, i: usize) -> (r: Option<usize>)
    requires
        i <= cs@.len(),
    ensures
        match r {
            Some(e) => scalar_end(cs@, i as int) == e as int && i < e <= cs@.len(),
            None => scalar_end(cs@, i as int) == -1,
        },
{
    if i >= cs.len() {
        return None;
    }
    let c = cs[i];
    if c == '"' {
        scan_str_body(cs, i + 1)
    } else if c == '-' || is_digit_at(c) {
        scan_number(cs, i)
    } else {
        proof {
            assert(!is_digit_char(cs@[i as int]));
        }
        scan_literal(cs, i)
    }
}

/// Scans past the elements of a non-empty array, from the first element to
/// the closing bracket.
#[verifier::loop_isolation(false)]
fn scan_arr_items(cs: &Vec<char>, start: usize) -> (r: Option<usize>)
    requires
        start <= cs@.len(),
    ensures
        match r {
            Some(e) => arr_items_end(cs@, start as int) == e as int && start < e <= cs@.len(),
            None => arr_items_end(cs@, start as int) == -1,
        },
{
    let s = cs;
    let mut i = start;
    loop
        invariant
            s@ == cs@,
            start <= i <= s@.len(),
            arr_items_end(s@, start as int) == arr_items_end(s@, i as int),
        decreases s@.len() - i,
    {
        let e = match scan_scalar(s, i) {
            Some(e) => e,
            None => {
                return None;
            },
        };
        let j = skip_ws(s, e);
        if j < s.len() && s[j] == ',' {
            let next = skip_ws(s, j + 1);
            proof {
                lemma_arr_items_end(s@, start as int);
                assert(i < next);
            }
            i = next;
        } else if j < s.len() && s[j] == ']' {
            proof {
                lemma_arr_items_end(s@, start as int);
            }
            return Some(j + 1);
        } else {
            return None;
        }
    }
}

/// Scans past one member value: a scalar, or a flat array of scalars.
fn scan_value(cs: &Vec<char>, i: usize) -> (r: Option<usize>)
    requires
        i <= cs@.len(),
    ensures
        match r {
            Some(e) => value_end(cs@, i as int) == e as int && i < e <= cs@.len(),
            None => value_end(cs@, i as int) == -1,
        },
{
    if i < cs.len() && cs[i] == '[' {
        let j = skip_ws(cs, i + 1);
        if j < cs.len() && cs[j] == ']' {
            Some(j + 1)
        } else {
            proof {
                lemma_arr_items_end(cs@, j as int);
            }
            scan_arr_items(cs, j)
        }
    } else {
        scan_scalar(cs, i)
    }
}

pub open spec fn opt_chars(o: Option<String>) -> Option<Seq<char>> {
    match o {
        Some(s) => Some(s@),
        None => None,
    }
}

pub open spec fn opt_int(o: Option<u32>) -> Option<int> {
    match o {
        Some(v) => Some(v as int),
        None => None,
    }
}

/// Walks the object's members from the first key, collecting `name` and
/// `button`.
#[verifier::loop_isolation(false)]
fn read_members(cs: &Vec<char>, start: usize) -> (r: Option<(Option<String>, Option<u32>, usize)>)
    requires
        start <= cs@.len(),
    ensures
        match r {
            Some(nbe) => members_parse(cs@, start as int, None, None) == Some(
                (opt_chars(nbe.0), opt_int(nbe.1), nbe.2 as int),
            ) && nbe.2 <= cs@.len(),
            None => members_parse(cs@, start as int, None, None) is None,
        },
{
    let s = cs;
    let mut i = start;
    let mut name: Option<String> = None;
    let mut button: Option<u32> = None;
    loop
        invariant
            s@ == cs@,
            start <= i <= s@.len(),
            members_parse(s@, start as int, None, None) == members_parse(
                s@,
                i as int,
                opt_chars(name),
                opt_int(button),
            ),
        decreases s@.len() - i,
    {
        if i >= s.len() || s[i] != '"' {
            return None;
        }
        let key_read = match read_str_body(s, i + 1) {
            Some(ke) => ke,
            None => {
                return None;
            },
        };
        let key = key_read.0;
        let kend = key_read.1;
        let j = skip_ws(s, kend);
        if j >= s.len() || s[j] != ':' {
            return None;
        }
        let v = skip_ws(s, j + 1);
        let name_key = String::from_str("name");
        let button_key = String::from_str("button");
        let is_name = key == name_key;
        let is_button = if is_name {
            false
        } else {
            key == button_key
        };
        proof {
            reveal_strlit("name");
            reveal_strlit("button");
        }
        let vend: usize;
        if is_name {
            if name.is_some() {
                return None;
            }
            if !(v < s.len() && s[v] == '"') {
                return None;
            }
            match read_str_body(s, v + 1) {
                Some(ce) => {
                    name = Some(ce.0);
                    vend = ce.1;
                },
                None => {
                    return None;
                },
            }
        } else if is_button {
            if button.is_some() {
                return None;
            }
            if !(v < s.len() && is_digit_at(s[v])) {
                proof {
                    assert(!(v < s@.len() && is_digit_char(s@[v as int])));
                }
                return None;
            }
            proof {
                assert(is_digit_char(s@[v as int]));
                assert(digits_end(s@, v as int) == digits_end(s@, v + 1));
                lemma_digits_end(s@, v + 1);
            }
            let dv = scan_digits(s, v);
            match dv.0 {
                Some(val) => {
                    proof {
                        assert(num_end(s@, v as int) == dv.1 as int);
                    }
                    button = Some(val);
                    vend = dv.1;
                },
                None => {
                    proof {
                        assert(num_end(s@, v as int) == dv.1 as int);
                        assert(digits_val(s@, v as int, num_end(s@, v as int)) > u32::MAX);
                    }
                    return None;
                },
            }
        } else {
            match scan_value(s, v) {
                Some(e) => {
                    vend = e;
                },
                None => {
                    return None;
                },
            }
        }
        // After the value: a comma and another member, or the closing brace.
        let j2 = skip_ws(s, vend);
        if j2 < s.len() && s[j2] == ',' {
            let next = skip_ws(s, j2 + 1);
            proof {
                assert(i < next);
            }
            i = next;
        } else if j2 < s.len() && s[j2] == '}' {
            return Some((name, button, j2 + 1));
        } else {
            return None;
        }
    }
}

/// Decodes one raw input line into a typed event, yielding nothing if the
/// line is malformed at any stage; one bad line is dropped, never an error.
pub fn decode_event_line<M: Message>(line: &str) -> (r: Option<Event<M>>)
    ensures
        r matches Some(ev) ==> event_for_line(line@, ev),
        r is None <==> line_undecodable::<M>(line@),
{
    let n = line.unicode_len();
    let mut cs: Vec<char> = Vec::new();
    let mut k: usize = 0;
    while k < n
        invariant
            n == line@.len(),
            k <= n,
            cs@ =~= line@.take(k as int),
        decreases n - k,
    {
        cs.push(line.get_char(k));
        k = k + 1;
    }
    proof {
        assert(cs@ =~= line@);
    }
    // Strip the wire separator commas from both ends.
    let mut lo: usize = 0;
    let mut hi: usize = cs.len();
    while lo < hi && cs[lo] == ','
        invariant
            lo <= hi <= cs@.len(),
            forall|k: int| 0 <= k < lo ==> cs@[k] == ',',
        decreases hi - lo,
    {
        lo = lo + 1;
    }
    while hi > lo && cs[hi - 1] == ','
        invariant
            lo <= hi <= cs@.len(),
            forall|k: int| 0 <= k < lo ==> cs@[k] == ',',
            forall|k: int| hi <= k < cs@.len() ==> cs@[k] == ',',
        decreases hi - lo,
    {
        hi = hi - 1;
    }
    let mut t: Vec<char> = Vec::new();
    let mut k2: usize = lo;
    while k2 < hi
        invariant
            lo <= k2 <= hi <= cs@.len(),
            t@ =~= cs@.subrange(lo as int, k2 as int),
        decreases hi - k2,
    {
        t.push(cs[k2]);
        k2 = k2 + 1;
    }
    proof {
        assert(t@ =~= cs@.subrange(lo as int, hi as int));
        lemma_trim_range(cs@, lo as int, hi as int);
        assert(t@ == trim_commas(line@));
    }
    // Parse the line as the event object.
    let i = skip_ws(&t, 0);
    if !(i < t.len() && t[i] == '{') {
        return None;
    }
    let j = skip_ws(&t, i + 1);
    let parsed: (Option<String>, Option<u32>, usize);
    if j < t.len() && t[j] == '}' {
        parsed = (None, None, j + 1);
    } else {
        match read_members(&t, j) {
            Some(p) => {
                parsed = p;
            },
            None => {
                return None;
            },
        }
    }
    if !(skip_ws(&t, parsed.2) == t.len()) {
        return None;
    }
    let name = match parsed.0 {
        Some(name) => name,
        None => {
            return None;
        },
    };
    let code = match parsed.1 {
        Some(code) => code,
        None => {
            return None;
        },
    };
    let button = match parse_button(code) {
        Some(b) => b,
        None => {
            return None;
        },
    };
    proof {
        assert(parse_event_line(t@) == Some((name@, code as int)));
        assert((code as int) as u32 == code);
    }
    match decode::<M>(name.as_str()) {
        Ok(m) => {
            proof {
                crate::base64::lemma_b64_round_trip(m.bytes_of());
                assert(valid_b64(name@));
                assert(b64_decoded(name@) == m.bytes_of());
                assert(!line_undecodable::<M>(line@));
            }
            Some(Event { message: m, button })
        },
        Err(e) => {
            proof {
                assert(e == DecodeError::NotBase64 || e == DecodeError::Schema);
                assert(!valid_b64(name@) || (forall|m: M| b64_decoded(name@) != m.bytes_of()));
                assert(line_undecodable::<M>(line@));
            }
            None
        },
    }
}

/// The comma trim, as positions: everything before `lo` and everything from
/// `hi` on is a comma, and the ends inside are not.
proof fn lemma_trim_range(s: Seq<char>, lo: int, hi: int)
    requires
        0 <= lo <= hi <= s.len(),
        forall|k: int| 0 <= k < lo ==> s[k] == ',',
        forall|k: int| hi <= k < s.len() ==> s[k] == ',',
        lo < hi ==> s[lo] != ',' && s[hi - 1] != ',',
    ensures
        trim_commas(s) == s.subrange(lo, hi),
    decreases s.len(),
{
    if s.len() > 0 && s[0] == ',' {
        assert(lo >= 1 || lo == hi) by {
            if lo == 0 && lo < hi {
                assert(s[lo] != ',');
            }
        }
        if lo >= 1 {
            assert(forall|k: int| 0 <= k < lo - 1 ==> s.skip(1)[k] == ',');
            assert(forall|k: int| hi - 1 <= k < s.skip(1).len() ==> s.skip(1)[k] == ',');
            lemma_trim_range(s.skip(1), lo - 1, hi - 1);
            assert(s.skip(1).subrange(lo - 1, hi - 1) =~= s.subrange(lo, hi));
        } else {
            // lo == hi == 0: the whole line is commas.
            assert(forall|k: int| 0 <= k < s.skip(1).len() ==> s.skip(1)[k] == ',');
            lemma_trim_range(s.skip(1), 0, 0);
            assert(s.skip(1).subrange(0, 0) =~= s.subrange(lo, hi));
        }
    } else if s.len() > 0 && s.last() == ',' {
        assert(hi < s.len() || lo == hi) by {
            if hi == s.len() && lo < hi {
                assert(s[hi - 1] != ',');
            }
        }
        if hi < s.len() {
            assert(forall|k: int| 0 <= k < lo ==> s.drop_last()[k] == ',');
            assert(forall|k: int| hi <= k < s.drop_last().len() ==> s.drop_last()[k] == ',');
            lemma_trim_range(s.drop_last(), lo, hi);
            assert(s.drop_last().subrange(lo, hi) =~= s.subrange(lo, hi));
        } else {
            // lo == hi == s.len(): the whole line is commas.
            assert(forall|k: int| 0 <= k < s.drop_last().len() ==> s.drop_last()[k] == ',');
            lemma_trim_range(s.drop_last(), s.len() - 1, s.len() - 1);
            assert(s.drop_last().subrange(s.len() - 1, s.len() - 1) =~= s.subrange(lo, hi));
        }
    } else {
        assert(lo == 0 || s.len() == 0) by {
            if s.len() > 0 && lo > 0 {
                assert(s[0] == ',');
            }
        }
        assert(hi == s.len() || s.len() == 0) by {
            if s.len() > 0 && hi < s.len() {
                assert(s[s.len() - 1] == ',');
            }
        }
        assert(trim_commas(s) == s);
        assert(s.subrange(lo, hi) =~= s);
    }
}

} // verus!
