//! Encoding a message into a printable string and decoding it back.
//!
//! The encoded form is base64 over the message's binary form, so it is valid
//! inside a JSON string and carries no protocol-breaking characters.

use vstd::prelude::*;

use crate::base64::{b64_chars, b64_decode, b64_decoded, b64_encode, valid_b64};
use crate::base64::{lemma_b64_canonical, lemma_b64_round_trip};
use crate::message::Message;

verus! {

/// Why a string failed to decode as a message.
#[derive(Clone, Copy, Debug, PartialEq, Eq, Structural)]
pub enum DecodeError {
    /// The string is not canonical base64 text.
    NotBase64,
    /// The decoded bytes do not fit the message type's binary schema.
    Schema,
}

/// The printable encoding of a message.
pub open spec fn encoded_chars<M: Message>(m: M) -> Seq<char> {
    b64_chars(m.bytes_of())
}

/// Encodes a message as printable text: base64 over its binary form.
/// Equal messages always yield identical text.
pub fn encode<M: Message>(m: &M) -> (s: String)
    ensures
        s@ == encoded_chars(*m),
{
    b64_encode(&m.to_bytes())
}

/// Decodes the printable encoding of a message: the exact inverse of
/// `encode`. In particular `decode` applied to `encode`'s output always
/// recovers the original message (the final clause), and every failure is
/// an ordinary result, told apart by which stage rejected the string.
pub fn decode<M: Message>(s: &str) -> (r: Result<M, DecodeError>)
    ensures
        r == Err::<M, DecodeError>(DecodeError::NotBase64) <==> !valid_b64(s@),
        r == Err::<M, DecodeError>(DecodeError::Schema) <==> valid_b64(s@) && (forall|m: M|
            b64_decoded(s@) != m.bytes_of()),
        r matches Ok(m) ==> s@ == encoded_chars(m),
        forall|m: M| s@ == encoded_chars(m) ==> r == Ok::<M, DecodeError>(m),
{
    let decoded = b64_decode(s);
    match decoded {
        None => {
            proof {
                assert forall|m: M| s@ == encoded_chars(m) implies false by {
                    lemma_b64_round_trip(m.bytes_of());
                }
            }
            Err(DecodeError::NotBase64)
        },
        Some(bytes) => {
            let parsed = M::from_bytes(&bytes);
            match parsed {
                None => {
                    proof {
                        assert forall|m: M| s@ == encoded_chars(m) implies false by {
                            lemma_b64_round_trip(m.bytes_of());
                        }
                    }
                    Err(DecodeError::Schema)
                },
                Some(m) => {
                    proof {
                        lemma_b64_canonical(s@);
                        assert(s@ == encoded_chars(m));
                        assert forall|m2: M| s@ == encoded_chars(m2) implies Some(m) == Some(
                            m2,
                        ) by {
                            lemma_b64_round_trip(m2.bytes_of());
                        }
                    }
                    Ok(m)
                },
            }
        },
    }
}

/// The round trip at the level of the codec's specification: the encoding of
/// any message is canonical base64 text, and it stands for exactly the
/// message's binary form.
pub proof fn lemma_codec_round_trip<M: Message>(m: M)
    ensures
        valid_b64(encoded_chars(m)),
        b64_decoded(encoded_chars(m)) == m.bytes_of(),
{
    lemma_b64_round_trip(m.bytes_of());
}

} // verus!
