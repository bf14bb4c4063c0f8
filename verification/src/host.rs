//! What the library takes from outside itself: the digest of a text, the
//! current time, fresh identifiers, and two facts about text from the
//! standard library. But for `hash_content`, nothing here is proved; each
//! item says what it relies on.

use sha2::{Digest, Sha256};
use vstd::prelude::*;

verus! {

/// `str`'s `==` compares the two texts character by character.
pub assume_specification[ <str as PartialEq>::eq ](a: &str, b: &str) -> (r: bool)
    ensures
        r == (a@ == b@),
;

/// Whether `c` has the Unicode property White_Space: it is one of the
/// controls U+0009 to U+000D and U+0085, or one of the spaces U+0020,
/// U+00A0, U+1680, U+2000 to U+200A, U+202F, U+205F and U+3000, or one of
/// the separators U+2028 and U+2029.
pub open spec fn is_white_space(c: char) -> bool {
    let n = c as u32;
    ||| 0x0009 <= n <= 0x000D
    ||| n == 0x0020
    ||| n == 0x0085
    ||| n == 0x00A0
    ||| n == 0x1680
    ||| 0x2000 <= n <= 0x200A
    ||| n == 0x2028
    ||| n == 0x2029
    ||| n == 0x202F
    ||| n == 0x205F
    ||| n == 0x3000
}

/// `char::is_whitespace` tells whether a character has the Unicode property
/// White_Space. Relied on: that property is the set of code points that
/// `is_white_space` lists.
pub assume_specification[ char::is_whitespace ](c: char) -> (r: bool)
    ensures
        r == is_white_space(c),
;

/// The number of characters of a digest.
pub const DIGEST_LENGTH: usize = 64;

/// The SHA-256 digest of `bytes`, written as lower-case hexadecimal text.
pub uninterp spec fn sha256_hex(bytes: Seq<u8>) -> Seq<char>;

/// Feeds `bytes` to `sha2::Sha256` (`new`, `update`, `finalize`) and formats
/// the digest with `{:x}`. Relied on: the text returned is a function of the
/// bytes alone, and it is the 32 bytes of the digest in two hexadecimal
/// digits each.
#[verifier::external_body]
pub(crate) fn sha256_hex_digest(bytes: &[u8]) -> (r: String)
    ensures
        r@ == sha256_hex(bytes@),
        r@.len() == DIGEST_LENGTH,
{
    let mut hasher = Sha256::new();
    hasher.update(bytes);
    format!("{:x}", hasher.finalize())
}

/// Calls `chrono::Utc::now().timestamp_millis()`: the wall clock, in
/// milliseconds since the epoch. Nothing is relied on about the value; two
/// calls may return anything, in any order. The call does not return on a
/// machine whose clock stands before 1970.
#[verifier::external_body]
pub(crate) fn now_millis() -> (r: i64) {
    chrono::Utc::now().timestamp_millis()
}

/// Calls `uuid::Uuid::new_v4().to_string()`: a random identifier as text.
/// Nothing is relied on about the value, not even that two differ. The call
/// does not return on a machine that has no random bytes to give.
#[verifier::external_body]
pub(crate) fn fresh_id() -> (r: String) {
    uuid::Uuid::new_v4().to_string()
}

/// The digest under which `content` is stored and recognised: the SHA-256 of
/// its UTF-8 bytes, in `DIGEST_LENGTH` hexadecimal digits.
pub fn hash_content(content: &str) -> (r: String)
    ensures
        r@ == sha256_hex(vstd::utf8::encode_utf8(content@)),
        r@.len() == DIGEST_LENGTH,
{
    sha256_hex_digest(content.as_bytes())
}

} // verus!
