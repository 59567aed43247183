//! The text-safe encoding used to embed binary message payloads in the wire
//! protocol: standard base64 with `=` padding, restricted to canonical
//! encodings (padding bits must be zero), so that encoding and decoding are
//! exact inverses.

use vstd::prelude::*;

use crate::text::push_char;

verus! {

/// The base64 alphabet character for a six-bit value.
pub open spec fn b64_char(v: int) -> char {
    if 0 <= v < 26 {
        ((v + 65) as u8) as char  // 'A'..='Z'
    } else if 26 <= v < 52 {
        ((v + 71) as u8) as char  // 'a'..='z'
    } else if 52 <= v < 62 {
        ((v - 4) as u8) as char  // '0'..='9'
    } else if v == 62 {
        '+'
    } else {
        '/'
    }
}

/// The six-bit value of an alphabet character, or -1 for any other character.
pub open spec fn b64_val(c: char) -> int {
    let u = c as int;
    if 65 <= u <= 90 {
        u - 65
    } else if 97 <= u <= 122 {
        u - 71
    } else if 48 <= u <= 57 {
        u + 4
    } else if u == 43 {
        62
    } else if u == 47 {
        63
    } else {
        -1
    }
}

pub open spec fn is_b64_char(c: char) -> bool {
    b64_val(c) >= 0
}

pub proof fn lemma_b64_char_val(v: int)
    requires
        0 <= v < 64,
    ensures
        b64_val(b64_char(v)) == v,
        is_b64_char(b64_char(v)),
{
}

/// The four characters encoding a full three-byte group.
pub open spec fn encode_group3(b0: u8, b1: u8, b2: u8) -> Seq<char> {
    seq![
        b64_char((b0 >> 2) as int),
        b64_char((((b0 & 3) << 4) | (b1 >> 4)) as int),
        b64_char((((b1 & 15) << 2) | (b2 >> 6)) as int),
        b64_char((b2 & 63) as int),
    ]
}

/// The four characters encoding a trailing two-byte group.
pub open spec fn encode_group2(b0: u8, b1: u8) -> Seq<char> {
    seq![
        b64_char((b0 >> 2) as int),
        b64_char((((b0 & 3) << 4) | (b1 >> 4)) as int),
        b64_char(((b1 & 15) << 2) as int),
        '=',
    ]
}

/// The four characters encoding a trailing one-byte group.
pub open spec fn encode_group1(b0: u8) -> Seq<char> {
    seq![b64_char((b0 >> 2) as int), b64_char(((b0 & 3) << 4) as int), '=', '=']
}

/// The base64 text of a byte string.
pub open spec fn b64_chars(s: Seq<u8>) -> Seq<char>
    decreases s.len(),
{
    if s.len() == 0 {
        Seq::empty()
    } else if s.len() == 1 {
        encode_group1(s[0])
    } else if s.len() == 2 {
        encode_group2(s[0], s[1])
    } else {
        encode_group3(s[0], s[1], s[2]) + b64_chars(s.skip(3))
    }
}

/// A full group: four alphabet characters, no padding.
pub open spec fn valid_group4(g: Seq<char>) -> bool {
    g.len() == 4 && is_b64_char(g[0]) && is_b64_char(g[1]) && is_b64_char(g[2]) && is_b64_char(
        g[3],
    )
}

/// A final group: four alphabet characters, or two or three of them followed
/// by padding whose spare bits are zero (the canonical forms).
pub open spec fn valid_last_group(g: Seq<char>) -> bool {
    &&& g.len() == 4
    &&& is_b64_char(g[0])
    &&& is_b64_char(g[1])
    &&& if g[2] == '=' {
        g[3] == '=' && b64_val(g[1]) % 16 == 0
    } else if g[3] == '=' {
        is_b64_char(g[2]) && b64_val(g[2]) % 4 == 0
    } else {
        is_b64_char(g[2]) && is_b64_char(g[3])
    }
}

/// Whether `s` is a canonical base64 text.
pub open spec fn valid_b64(s: Seq<char>) -> bool
    decreases s.len(),
{
    if s.len() == 0 {
        true
    } else if s.len() == 4 {
        valid_last_group(s)
    } else if s.len() < 4 {
        false
    } else {
        valid_group4(s.take(4)) && valid_b64(s.skip(4))
    }
}

/// The three bytes of a full group.
pub open spec fn decode_group3(g: Seq<char>) -> Seq<u8> {
    let v0 = b64_val(g[0]) as u8;
    let v1 = b64_val(g[1]) as u8;
    let v2 = b64_val(g[2]) as u8;
    let v3 = b64_val(g[3]) as u8;
    seq![(v0 << 2) | (v1 >> 4), ((v1 & 15) << 4) | (v2 >> 2), ((v2 & 3) << 6) | v3]
}

/// The bytes of a final, possibly padded group.
pub open spec fn decode_last_group(g: Seq<char>) -> Seq<u8> {
    let v0 = b64_val(g[0]) as u8;
    let v1 = b64_val(g[1]) as u8;
    let v2 = b64_val(g[2]) as u8;
    if g[2] == '=' {
        seq![(v0 << 2) | (v1 >> 4)]
    } else if g[3] == '=' {
        seq![(v0 << 2) | (v1 >> 4), ((v1 & 15) << 4) | (v2 >> 2)]
    } else {
        decode_group3(g)
    }
}

/// The bytes a canonical base64 text stands for.
pub open spec fn b64_decoded(s: Seq<char>) -> Seq<u8>
    decreases s.len(),
{
    if s.len() < 4 {
        Seq::empty()
    } else if s.len() == 4 {
        decode_last_group(s)
    } else {
        decode_group3(s.take(4)) + b64_decoded(s.skip(4))
    }
}

pub proof fn lemma_b64_val_char(c: char)
    requires
        is_b64_char(c),
    ensures
        b64_char(b64_val(c)) == c,
{
    vstd::utf8::char_u32_cast(c, c as u32);
}

/// An alphabet character is never the padding character.
pub proof fn lemma_b64_char_not_pad(c: char)
    requires
        is_b64_char(c),
    ensures
        c != '=',
{
}

proof fn lemma_group3_round_trip(b0: u8, b1: u8, b2: u8)
    ensures
        valid_group4(encode_group3(b0, b1, b2)),
        decode_group3(encode_group3(b0, b1, b2)) =~= seq![b0, b1, b2],
{
    let v0 = b0 >> 2;
    let v1 = ((b0 & 3) << 4) | (b1 >> 4);
    let v2 = ((b1 & 15) << 2) | (b2 >> 6);
    let v3 = b2 & 63;
    assert((b0 >> 2) < 64 && (((b0 & 3) << 4) | (b1 >> 4)) < 64 && ((((b1 & 15) << 2) | (b2 >> 6)))
        < 64 && (b2 & 63) < 64) by (bit_vector);
    lemma_b64_char_val(v0 as int);
    lemma_b64_char_val(v1 as int);
    lemma_b64_char_val(v2 as int);
    lemma_b64_char_val(v3 as int);
    assert(((b0 >> 2) << 2) | ((((b0 & 3) << 4) | (b1 >> 4)) >> 4) == b0) by (bit_vector);
    assert((((((b0 & 3) << 4) | (b1 >> 4)) & 15) << 4) | (((((b1 & 15) << 2) | (b2 >> 6))) >> 2)
        == b1) by (bit_vector);
    assert((((((b1 & 15) << 2) | (b2 >> 6)) & 3) << 6) | (b2 & 63) == b2) by (bit_vector);
}

proof fn lemma_group2_round_trip(b0: u8, b1: u8)
    ensures
        valid_last_group(encode_group2(b0, b1)),
        decode_last_group(encode_group2(b0, b1)) =~= seq![b0, b1],
{
    let v0 = b0 >> 2;
    let v1 = ((b0 & 3) << 4) | (b1 >> 4);
    let v2 = (b1 & 15) << 2;
    assert((b0 >> 2) < 64 && (((b0 & 3) << 4) | (b1 >> 4)) < 64 && ((b1 & 15) << 2) < 64 && ((b1
        & 15) << 2) % 4 == 0) by (bit_vector);
    lemma_b64_char_val(v0 as int);
    lemma_b64_char_val(v1 as int);
    lemma_b64_char_val(v2 as int);
    assert(((b0 >> 2) << 2) | ((((b0 & 3) << 4) | (b1 >> 4)) >> 4) == b0) by (bit_vector);
    assert((((((b0 & 3) << 4) | (b1 >> 4)) & 15) << 4) | (((b1 & 15) << 2) >> 2) == b1)
        by (bit_vector);
}

proof fn lemma_group1_round_trip(b0: u8)
    ensures
        valid_last_group(encode_group1(b0)),
        decode_last_group(encode_group1(b0)) =~= seq![b0],
{
    let v0 = b0 >> 2;
    let v1 = (b0 & 3) << 4;
    assert((b0 >> 2) < 64 && ((b0 & 3) << 4) < 64 && ((b0 & 3) << 4) % 16 == 0) by (bit_vector);
    lemma_b64_char_val(v0 as int);
    lemma_b64_char_val(v1 as int);
    assert(((b0 >> 2) << 2) | (((b0 & 3) << 4) >> 4) == b0) by (bit_vector);
}

/// Decoding inverts encoding: the base64 text of any byte string is canonical
/// and stands for exactly that byte string.
pub proof fn lemma_b64_round_trip(s: Seq<u8>)
    ensures
        valid_b64(b64_chars(s)),
        b64_decoded(b64_chars(s)) == s,
    decreases s.len(),
{
    if s.len() == 0 {
        assert(b64_decoded(b64_chars(s)) =~= s);
    } else if s.len() == 1 {
        lemma_group1_round_trip(s[0]);
        assert(b64_decoded(b64_chars(s)) =~= s);
    } else if s.len() == 2 {
        lemma_group2_round_trip(s[0], s[1]);
        assert(b64_decoded(b64_chars(s)) =~= s);
    } else {
        let g = encode_group3(s[0], s[1], s[2]);
        let rest = b64_chars(s.skip(3));
        lemma_group3_round_trip(s[0], s[1], s[2]);
        lemma_b64_round_trip(s.skip(3));
        assert(b64_chars(s) == g + rest);
        if s.len() == 3 {
            assert(s.skip(3).len() == 0);
            assert(b64_chars(s) =~= g);
            assert(valid_last_group(g)) by {
                lemma_b64_char_not_pad(g[2]);
                lemma_b64_char_not_pad(g[3]);
            }
            assert(b64_decoded(b64_chars(s)) =~= s);
        } else {
            assert((g + rest).len() > 4);
            assert((g + rest).take(4) =~= g);
            assert((g + rest).skip(4) =~= rest);
            assert(valid_b64(b64_chars(s)));
            assert(decode_group3(g) + b64_decoded(rest) =~= s) by {
                assert(decode_group3(g) =~= seq![s[0], s[1], s[2]]);
                assert(b64_decoded(rest) == s.skip(3));
            }
        }
    }
}

proof fn lemma_group3_canonical(g: Seq<char>)
    requires
        valid_group4(g),
    ensures
        decode_group3(g).len() == 3,
        encode_group3(decode_group3(g)[0], decode_group3(g)[1], decode_group3(g)[2]) == g,
{
    let v0 = b64_val(g[0]) as u8;
    let v1 = b64_val(g[1]) as u8;
    let v2 = b64_val(g[2]) as u8;
    let v3 = b64_val(g[3]) as u8;
    assert(forall|v0: u8, v1: u8, v2: u8, v3: u8|
        (v0 < 64 && v1 < 64 && v2 < 64 && v3 < 64) ==> ((((v0 << 2) | (v1 >> 4)) >> 2) == v0 && (((((
        v0 << 2) | (v1 >> 4)) & 3) << 4) | ((((v1 & 15) << 4) | (v2 >> 2)) >> 4)) == v1 && (((((v1
            & 15) << 4) | (v2 >> 2)) & 15) << 2) | ((((v2 & 3) << 6) | v3) >> 6) == v2 && ((((v2
            & 3) << 6) | v3) & 63) == v3)) by (bit_vector);
    lemma_b64_val_char(g[0]);
    lemma_b64_val_char(g[1]);
    lemma_b64_val_char(g[2]);
    lemma_b64_val_char(g[3]);
    assert(encode_group3(decode_group3(g)[0], decode_group3(g)[1], decode_group3(g)[2]) =~= g);
}

proof fn lemma_group2_canonical(g: Seq<char>)
    requires
        valid_last_group(g),
        g[2] != '=',
        g[3] == '=',
    ensures
        decode_last_group(g).len() == 2,
        encode_group2(decode_last_group(g)[0], decode_last_group(g)[1]) == g,
{
    let v0 = b64_val(g[0]) as u8;
    let v1 = b64_val(g[1]) as u8;
    let v2 = b64_val(g[2]) as u8;
    assert(forall|v0: u8, v1: u8, v2: u8|
        (v0 < 64 && v1 < 64 && v2 < 64 && v2 % 4 == 0) ==> ((((v0 << 2) | (v1 >> 4)) >> 2) == v0
            && (((((v0 << 2) | (v1 >> 4)) & 3) << 4) | ((((v1 & 15) << 4) | (v2 >> 2)) >> 4)) == v1
            && (((((v1 & 15) << 4) | (v2 >> 2)) & 15) << 2) == v2)) by (bit_vector);
    lemma_b64_val_char(g[0]);
    lemma_b64_val_char(g[1]);
    lemma_b64_val_char(g[2]);
    assert(encode_group2(decode_last_group(g)[0], decode_last_group(g)[1]) =~= g);
}

proof fn lemma_group1_canonical(g: Seq<char>)
    requires
        valid_last_group(g),
        g[2] == '=',
    ensures
        decode_last_group(g).len() == 1,
        encode_group1(decode_last_group(g)[0]) == g,
{
    let v0 = b64_val(g[0]) as u8;
    let v1 = b64_val(g[1]) as u8;
    assert(forall|v0: u8, v1: u8|
        (v0 < 64 && v1 < 64 && v1 % 16 == 0) ==> ((((v0 << 2) | (v1 >> 4)) >> 2) == v0 && ((((v0
            << 2) | (v1 >> 4)) & 3) << 4) == v1)) by (bit_vector);
    lemma_b64_val_char(g[0]);
    lemma_b64_val_char(g[1]);
    assert(encode_group1(decode_last_group(g)[0]) =~= g);
}

/// Encoding inverts decoding: a canonical base64 text is the encoding of the
/// bytes it stands for.
pub proof fn lemma_b64_canonical(s: Seq<char>)
    requires
        valid_b64(s),
    ensures
        b64_chars(b64_decoded(s)) == s,
    decreases s.len(),
{
    if s.len() == 0 {
        assert(b64_chars(b64_decoded(s)) =~= s);
    } else if s.len() == 4 {
        if s[2] == '=' {
            lemma_group1_canonical(s);
        } else if s[3] == '=' {
            lemma_group2_canonical(s);
        } else {
            lemma_group3_canonical(s);
            assert(decode_last_group(s) == decode_group3(s));
            let t = decode_last_group(s);
            assert(t.skip(3).len() == 0);
            assert(b64_chars(t.skip(3)) == Seq::<char>::empty());
            assert(b64_chars(t) == encode_group3(t[0], t[1], t[2]) + b64_chars(t.skip(3)));
            assert(b64_chars(t) =~= encode_group3(t[0], t[1], t[2]));
        }
    } else {
        let g = s.take(4);
        let head = decode_group3(g);
        let rest = b64_decoded(s.skip(4));
        lemma_group3_canonical(g);
        lemma_b64_canonical(s.skip(4));
        assert(b64_decoded(s) == head + rest);
        assert((head + rest)[0] == head[0] && (head + rest)[1] == head[1] && (head + rest)[2]
            == head[2]);
        assert((head + rest).skip(3) =~= rest);
        assert(b64_chars(head + rest) == encode_group3(head[0], head[1], head[2]) + b64_chars(
            rest,
        ));
        assert(b64_chars(b64_decoded(s)) =~= s);
    }
}

fn b64_char_at(v: u8) -> (c: char)
    requires
        v < 64,
    ensures
        c == b64_char(v as int),
{
    if v < 26 {
        (v + 65) as char
    } else if v < 52 {
        (v + 71) as char
    } else if v < 62 {
        (v - 4) as char
    } else if v == 62 {
        '+'
    } else {
        '/'
    }
}

/// The six-bit value of `c`, with 255 standing for "not in the alphabet".
fn b64_val_at(c: char) -> (v: u8)
    ensures
        b64_val(c) >= 0 ==> v == b64_val(c),
        b64_val(c) < 0 ==> v == 255,
{
    let u = c as u32;
    if 65 <= u && u <= 90 {
        (u - 65) as u8
    } else if 97 <= u && u <= 122 {
        (u - 71) as u8
    } else if 48 <= u && u <= 57 {
        (u + 4) as u8
    } else if u == 43 {
        62
    } else if u == 47 {
        63
    } else {
        255
    }
}

/// Encodes a byte string as canonical base64 text.
pub fn b64_encode(bytes: &Vec<u8>) -> (s: String)
    ensures
        s@ == b64_chars(bytes@),
{
    let mut s = String::new();
    let mut i: usize = 0;
    proof {
        assert(bytes@.skip(0) =~= bytes@);
        assert(Seq::<char>::empty() + b64_chars(bytes@) =~= b64_chars(bytes@));
    }
    while bytes.len() - i >= 3
        invariant
            i <= bytes.len(),
            b64_chars(bytes@) == s@ + b64_chars(bytes@.skip(i as int)),
        decreases bytes.len() - i,
    {
        let b0 = bytes[i];
        let b1 = bytes[i + 1];
        let b2 = bytes[i + 2];
        proof {
            assert(b0 >> 2 < 64 && ((b0 & 3) << 4) | (b1 >> 4) < 64 && ((b1 & 15) << 2) | (b2 >> 6)
                < 64 && b2 & 63 < 64) by (bit_vector);
            let rem = bytes@.skip(i as int);
            assert(rem[0] == b0 && rem[1] == b1 && rem[2] == b2);
            assert(rem.skip(3) =~= bytes@.skip(i + 3));
        }
        push_char(&mut s, b64_char_at(b0 >> 2));
        push_char(&mut s, b64_char_at(((b0 & 3) << 4) | (b1 >> 4)));
        push_char(&mut s, b64_char_at(((b1 & 15) << 2) | (b2 >> 6)));
        push_char(&mut s, b64_char_at(b2 & 63));
        i = i + 3;
        proof {
            assert(b64_chars(bytes@) =~= s@ + b64_chars(bytes@.skip(i as int)));
        }
    }
    let rem = bytes.len() - i;
    if rem == 1 {
        let b0 = bytes[i];
        proof {
            assert(b0 >> 2 < 64 && (b0 & 3) << 4 < 64) by (bit_vector);
            assert(bytes@.skip(i as int).len() == 1);
            assert(bytes@.skip(i as int)[0] == b0);
        }
        push_char(&mut s, b64_char_at(b0 >> 2));
        push_char(&mut s, b64_char_at((b0 & 3) << 4));
        push_char(&mut s, '=');
        push_char(&mut s, '=');
        proof {
            assert(s@ =~= b64_chars(bytes@));
        }
    } else if rem == 2 {
        let b0 = bytes[i];
        let b1 = bytes[i + 1];
        proof {
            assert(b0 >> 2 < 64 && ((b0 & 3) << 4) | (b1 >> 4) < 64 && (b1 & 15) << 2 < 64)
                by (bit_vector);
            assert(bytes@.skip(i as int).len() == 2);
            assert(bytes@.skip(i as int)[0] == b0 && bytes@.skip(i as int)[1] == b1);
        }
        push_char(&mut s, b64_char_at(b0 >> 2));
        push_char(&mut s, b64_char_at(((b0 & 3) << 4) | (b1 >> 4)));
        push_char(&mut s, b64_char_at((b1 & 15) << 2));
        push_char(&mut s, '=');
        proof {
            assert(s@ =~= b64_chars(bytes@));
        }
    } else {
        proof {
            assert(bytes@.skip(i as int).len() == 0);
            assert(s@ =~= b64_chars(bytes@));
        }
    }
    s
}

/// Decodes canonical base64 text; yields nothing on any other input.
pub fn b64_decode(s: &str) -> (r: Option<Vec<u8>>)
    ensures
        r is Some <==> valid_b64(s@),
        r matches Some(v) ==> v@ == b64_decoded(s@),
{
    let n = s.unicode_len();
    let mut cs: Vec<char> = Vec::new();
    let mut j: usize = 0;
    while j < n
        invariant
            n == s@.len(),
            j <= n,
            cs@ =~= s@.take(j as int),
        decreases n - j,
    {
        cs.push(s.get_char(j));
        j = j + 1;
    }
    proof {
        assert(cs@ =~= s@);
    }
    let mut bytes: Vec<u8> = Vec::new();
    let mut i: usize = 0;
    while n - i > 4
        invariant
            cs@ == s@,
            n == s@.len(),
            i <= n,
            valid_b64(s@) <==> valid_b64(s@.skip(i as int)),
            valid_b64(s@) ==> b64_decoded(s@) == bytes@ + b64_decoded(s@.skip(i as int)),
        decreases n - i,
    {
        let v0 = b64_val_at(cs[i]);
        let v1 = b64_val_at(cs[i + 1]);
        let v2 = b64_val_at(cs[i + 2]);
        let v3 = b64_val_at(cs[i + 3]);
        proof {
            let rem = s@.skip(i as int);
            assert(rem[0] == s@[i as int] && rem[1] == s@[i + 1] && rem[2] == s@[i + 2] && rem[3]
                == s@[i + 3]);
            assert(rem.take(4) =~= seq![s@[i as int], s@[i + 1], s@[i + 2], s@[i + 3]]);
            assert(rem.skip(4) =~= s@.skip(i + 4));
        }
        if v0 == 255 || v1 == 255 || v2 == 255 || v3 == 255 {
            proof {
                assert(!valid_group4(s@.skip(i as int).take(4)));
            }
            return None;
        }
        bytes.push((v0 << 2) | (v1 >> 4));
        bytes.push(((v1 & 15) << 4) | (v2 >> 2));
        bytes.push(((v2 & 3) << 6) | v3);
        i = i + 4;
        proof {
            assert(valid_b64(s@) ==> b64_decoded(s@) =~= bytes@ + b64_decoded(s@.skip(i as int)));
        }
    }
    if i == n {
        proof {
            assert(s@.skip(i as int).len() == 0);
            assert(valid_b64(s@) ==> b64_decoded(s@) =~= bytes@);
        }
        return Some(bytes);
    }
    if n - i < 4 {
        proof {
            let rem = s@.skip(i as int);
            assert(0 < rem.len() < 4);
        }
        return None;
    }
    // Exactly one group remains: the final, possibly padded one.
    let v0 = b64_val_at(cs[i]);
    let v1 = b64_val_at(cs[i + 1]);
    let v2 = b64_val_at(cs[i + 2]);
    let v3 = b64_val_at(cs[i + 3]);
    proof {
        let rem = s@.skip(i as int);
        assert(rem.len() == 4);
        assert(rem[0] == s@[i as int] && rem[1] == s@[i + 1]);
        assert(rem[2] == s@[i + 2] && rem[3] == s@[i + 3]);
    }
    if v0 == 255 || v1 == 255 {
        return None;
    }
    if cs[i + 2] == '=' {
        if cs[i + 3] == '=' && v1 % 16 == 0 {
            bytes.push((v0 << 2) | (v1 >> 4));
            proof {
                assert(valid_b64(s@));
                assert(b64_decoded(s@) =~= bytes@);
            }
            return Some(bytes);
        }
        return None;
    }
    if v2 == 255 {
        return None;
    }
    if cs[i + 3] == '=' {
        if v2 % 4 == 0 {
            bytes.push((v0 << 2) | (v1 >> 4));
            bytes.push(((v1 & 15) << 4) | (v2 >> 2));
            proof {
                assert(valid_b64(s@));
                assert(b64_decoded(s@) =~= bytes@);
            }
            return Some(bytes);
        }
        return None;
    }
    if v3 == 255 {
        return None;
    }
    bytes.push((v0 << 2) | (v1 >> 4));
    bytes.push(((v1 & 15) << 4) | (v2 >> 2));
    bytes.push(((v2 & 3) << 6) | v3);
    proof {
        assert(valid_b64(s@));
        assert(b64_decoded(s@) =~= bytes@);
    }
    Some(bytes)
}

} // verus!
