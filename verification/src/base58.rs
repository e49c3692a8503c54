//! Base-58 text in the Bitcoin alphabet, read and written by the `bs58`
//! crate.

use vstd::prelude::*;

verus! {

/// Whether `c` belongs to the alphabet: the digits and the Latin letters
/// without `0`, `O`, `I` and `l`.
pub open spec fn is_base58_char(c: char) -> bool {
    ||| '1' <= c <= '9'
    ||| 'A' <= c <= 'H'
    ||| 'J' <= c <= 'N'
    ||| 'P' <= c <= 'Z'
    ||| 'a' <= c <= 'k'
    ||| 'm' <= c <= 'z'
}

/// Whether every character of `text` belongs to the alphabet.
pub open spec fn is_base58(text: Seq<char>) -> bool {
    forall|i: int| 0 <= i < text.len() ==> is_base58_char(#[trigger] text[i])
}

/// The text that `bs58::encode` produces for `bytes`.
pub uninterp spec fn base58_text(bytes: Seq<u8>) -> Seq<char>;

/// The bytes that `bs58::decode` produces for a `text` of the alphabet.
pub uninterp spec fn base58_bytes(text: Seq<char>) -> Seq<u8>;

/// `bs58::decode::Error`, carried from the decoder to the caller that maps
/// it; nothing is read from it.
#[verifier::external_type_specification]
#[verifier::external_body]
pub struct ExDecodeError(bs58::decode::Error);

/// `bs58::encode(..).into_string()` with the default alphabet.
///
/// Trusted: the text depends on the bytes alone, holds only characters of
/// the alphabet and at least one of them for each byte, and `bs58::decode`
/// turns it back into the same bytes.
#[verifier::external_body]
pub(crate) fn encode(bytes: &[u8]) -> (text: String)
    ensures
        text@ == base58_text(bytes@),
        is_base58(text@),
        text@.len() >= bytes@.len(),
        base58_bytes(text@) == bytes@,
{
    bs58::encode(bytes).into_string()
}

/// `bs58::decode(..).into_vec()` with the default alphabet.
///
/// Trusted: decoding succeeds exactly on the texts made of characters of
/// the alphabet, and the bytes depend on the text alone.
#[verifier::external_body]
pub(crate) fn decode(text: &str) -> (decoded: Result<Vec<u8>, bs58::decode::Error>)
    ensures
        decoded is Ok <==> is_base58(text@),
        decoded is Ok ==> decoded->Ok_0@ == base58_bytes(text@),
{
    bs58::decode(text).into_vec()
}

} // verus!
