//! Trusted wrappers around the base64 crate (standard alphabet, padded).
//!
//! The encoding itself is named, not restated: `b64_bytes_of` stands for
//! "standard base64 of these bytes, as ASCII bytes". The wrappers state only
//! what the crate's documentation plainly gives: the encoding is a function
//! of the input alone, every output byte is from the padded standard
//! alphabet, and decoding an encoding returns the original bytes.

use vstd::prelude::*;

use base64::Engine;

verus! {

/// Standard base64 (alphabet `A`–`Z`, `a`–`z`, `0`–`9`, `+`, `/`, padded
/// with `=`) of a byte sequence, as ASCII bytes.
pub uninterp spec fn b64_bytes_of(bytes: Seq<u8>) -> Seq<u8>;

/// The bytes the padded standard base64 alphabet can produce. Notably this
/// excludes `,` (44) and the line feed (10), which the cache file format
/// uses as separators.
pub open spec fn is_b64_byte(b: u8) -> bool {
    (65 <= b <= 90) || (97 <= b <= 122) || (48 <= b <= 57) || b == 43 || b == 47 || b == 61
}

/// Every byte of the sequence is from the padded standard alphabet.
pub open spec fn b64_clean(s: Seq<u8>) -> bool {
    forall|i: int| 0 <= i < s.len() ==> is_b64_byte(s[i])
}

/// Relies on `base64::engine::Engine::encode` with the `STANDARD` engine:
/// the encoding depends on the input bytes alone, and consists of padded
/// standard-alphabet characters.
#[verifier::external_body]
pub fn b64_encode(bytes: &[u8]) -> (r: Vec<u8>)
    ensures
        r@ == b64_bytes_of(bytes@),
        b64_clean(r@),
{
    base64::engine::general_purpose::STANDARD.encode(bytes).into_bytes()
}

/// Relies on `base64::engine::Engine::decode` with the `STANDARD` engine:
/// decoding the standard encoding of any byte sequence succeeds and returns
/// that sequence.
#[verifier::external_body]
pub fn b64_decode(bytes: &[u8]) -> (r: Option<Vec<u8>>)
    ensures
        forall|x: Seq<u8>| bytes@ == b64_bytes_of(x) ==> r is Some && r->Some_0@ == x,
{
    base64::engine::general_purpose::STANDARD.decode(bytes).ok()
}

} // verus!
