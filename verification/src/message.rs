//! Application messages and their deterministic binary form.

use vstd::prelude::*;

verus! {

/// A value that can ride inside a block and come back from a click event.
///
/// `bytes_of` is the message type's deterministic, self-describing binary
/// schema: `to_bytes` produces exactly it, and `from_bytes` accepts exactly
/// the byte strings of that shape, recovering the message they encode. The
/// contracts force `bytes_of` to be injective, which is what makes the
/// codec's round-trip law hold for every implementing type.
pub trait Message: Sized {
    /// The binary encoding of this message.
    spec fn bytes_of(&self) -> Seq<u8>;

    /// Serializes the message into its binary form.
    fn to_bytes(&self) -> (r: Vec<u8>)
        ensures
            r@ == self.bytes_of(),
    ;

    /// Parses a binary form, accepting exactly the encodings of messages.
    fn from_bytes(bytes: &Vec<u8>) -> (r: Option<Self>)
        ensures
            r matches Some(m) ==> bytes@ == m.bytes_of(),
            forall|m: Self| bytes@ == m.bytes_of() ==> r == Some(m),
    ;

    /// Makes a copy equal to this message.
    fn duplicate(&self) -> (r: Self)
        ensures
            r == *self,
    ;
}

/// The eight little-endian bytes of a 64-bit integer.
pub open spec fn u64_le_bytes(x: u64) -> Seq<u8> {
    seq![
        (x & 0xff) as u8,
        ((x >> 8) & 0xff) as u8,
        ((x >> 16) & 0xff) as u8,
        ((x >> 24) & 0xff) as u8,
        ((x >> 32) & 0xff) as u8,
        ((x >> 40) & 0xff) as u8,
        ((x >> 48) & 0xff) as u8,
        ((x >> 56) & 0xff) as u8,
    ]
}

impl Message for u64 {
    open spec fn bytes_of(&self) -> Seq<u8> {
        u64_le_bytes(*self)
    }

    fn to_bytes(&self) -> (r: Vec<u8>) {
        let x = *self;
        proof {
            assert((x & 0xff) < 256 && ((x >> 8) & 0xff) < 256 && ((x >> 16) & 0xff) < 256 && ((x
                >> 24) & 0xff) < 256 && ((x >> 32) & 0xff) < 256 && ((x >> 40) & 0xff) < 256 && ((x
                >> 48) & 0xff) < 256 && ((x >> 56) & 0xff) < 256) by (bit_vector);
        }
        let mut r: Vec<u8> = Vec::new();
        r.push((x & 0xff) as u8);
        r.push(((x >> 8) & 0xff) as u8);
        r.push(((x >> 16) & 0xff) as u8);
        r.push(((x >> 24) & 0xff) as u8);
        r.push(((x >> 32) & 0xff) as u8);
        r.push(((x >> 40) & 0xff) as u8);
        r.push(((x >> 48) & 0xff) as u8);
        r.push(((x >> 56) & 0xff) as u8);
        proof {
            assert(r@ =~= u64_le_bytes(x));
        }
        r
    }

    fn from_bytes(bytes: &Vec<u8>) -> (r: Option<u64>) {
        if bytes.len() != 8 {
            return None;
        }
        let b0 = bytes[0];
        let b1 = bytes[1];
        let b2 = bytes[2];
        let b3 = bytes[3];
        let b4 = bytes[4];
        let b5 = bytes[5];
        let b6 = bytes[6];
        let b7 = bytes[7];
        let x = (b0 as u64) | (b1 as u64) << 8 | (b2 as u64) << 16 | (b3 as u64) << 24 | (
        b4 as u64) << 32 | (b5 as u64) << 40 | (b6 as u64) << 48 | (b7 as u64) << 56;
        proof {
            assert({
                let y = (b0 as u64) | (b1 as u64) << 8 | (b2 as u64) << 16 | (b3 as u64) << 24 | (
                b4 as u64) << 32 | (b5 as u64) << 40 | (b6 as u64) << 48 | (b7 as u64) << 56;
                (y & 0xff) as u8 == b0 && ((y >> 8) & 0xff) as u8 == b1 && ((y >> 16) & 0xff) as u8
                    == b2 && ((y >> 24) & 0xff) as u8 == b3 && ((y >> 32) & 0xff) as u8 == b4 && ((y
                    >> 40) & 0xff) as u8 == b5 && ((y >> 48) & 0xff) as u8 == b6 && ((y >> 56)
                    & 0xff) as u8 == b7
            }) by (bit_vector);
            assert(bytes@ =~= u64_le_bytes(x));
            assert forall|m: u64| bytes@ == u64_le_bytes(m) implies Some(x) == Some(m) by {
                assert(((m & 0xff) as u8 == (x & 0xff) as u8 && ((m >> 8) & 0xff) as u8 == ((x >> 8)
                    & 0xff) as u8 && ((m >> 16) & 0xff) as u8 == ((x >> 16) & 0xff) as u8 && ((m
                    >> 24) & 0xff) as u8 == ((x >> 24) & 0xff) as u8 && ((m >> 32) & 0xff) as u8 == (
                (x >> 32) & 0xff) as u8 && ((m >> 40) & 0xff) as u8 == ((x >> 40) & 0xff) as u8 && ((
                m >> 48) & 0xff) as u8 == ((x >> 48) & 0xff) as u8 && ((m >> 56) & 0xff) as u8 == ((x
                    >> 56) & 0xff) as u8) ==> m == x) by (bit_vector);
            }
        }
        Some(x)
    }

    fn duplicate(&self) -> (r: u64) {
        *self
    }
}

} // verus!
