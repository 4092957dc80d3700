use vstd::prelude::*;

use base64::Engine;
use rand_core::RngCore;

verus! {

/// Lowercase hexadecimal digit.
pub open spec fn is_lower_hex_digit(c: char) -> bool {
    ('0' <= c && c <= '9') || ('a' <= c && c <= 'f')
}

/// Value of a hexadecimal digit of either case; -1 for any other character.
pub open spec fn hex_digit_value(c: char) -> int {
    if '0' <= c && c <= '9' {
        c as int - '0' as int
    } else if 'a' <= c && c <= 'f' {
        c as int - 'a' as int + 10
    } else if 'A' <= c && c <= 'F' {
        c as int - 'A' as int + 10
    } else {
        -1
    }
}

/// An even number of hexadecimal digits.
pub open spec fn is_hex_text(s: Seq<char>) -> bool {
    &&& s.len() % 2 == 0
    &&& forall|i: int| 0 <= i < s.len() ==> hex_digit_value(#[trigger] s[i]) >= 0
}

/// The bytes that a hexadecimal text spells, two digits per byte, high digit first.
pub open spec fn hex_decoded(s: Seq<char>) -> Seq<u8> {
    Seq::new(
        s.len() / 2,
        |i: int| (16 * hex_digit_value(s[2 * i]) + hex_digit_value(s[2 * i + 1])) as u8,
    )
}

/// Lowercase hex SHA-256 digest of the UTF-8 encoding of a text.
pub uninterp spec fn sha256_hex(s: Seq<char>) -> Seq<char>;

/// Unpadded base64url encoding of bytes (RFC 4648, section 5).
pub uninterp spec fn base64url_of(b: Seq<u8>) -> Seq<char>;

/// Relies on `sha256::digest` on a `&str`: `hex::encode` of the 32-byte
/// SHA-256 digest, so 64 lowercase hexadecimal digits.
#[verifier::external_body]
pub(crate) fn digest_hex(s: &str) -> (r: String)
    ensures
        r@ == sha256_hex(s@),
        r@.len() == 64,
        forall|i: int| 0 <= i < r@.len() ==> is_lower_hex_digit(#[trigger] r@[i]),
{
    sha256::digest(s)
}

/// Relies on `hex::decode`: fails on an odd length or a non-hex byte, and
/// otherwise turns each pair of digits (either case) into one byte.
#[verifier::external_body]
fn hex_decode(s: &str) -> (r: Option<Vec<u8>>)
    ensures
        r is Some <==> is_hex_text(s@),
        r is Some ==> r->0@ == hex_decoded(s@),
{
    hex::decode(s).ok()
}

/// Relies on `base64::engine::general_purpose::URL_SAFE_NO_PAD.encode`.
#[verifier::external_body]
fn base64url(b: &Vec<u8>) -> (r: String)
    requires
        b@.len() <= 0x1000_0000,
    ensures
        r@ == base64url_of(b@),
{
    base64::engine::general_purpose::URL_SAFE_NO_PAD.encode(b)
}

/// Relies on `rand_core::OsRng::try_fill_bytes`: `n` bytes from the
/// operating system's secure generator, or `None` when it fails.
#[verifier::external_body]
pub(crate) fn random_bytes(n: usize) -> (r: Option<Vec<u8>>)
    ensures
        r is Some ==> r->0@.len() == n,
{
    let mut buf = vec![0u8; n];
    match rand_core::OsRng.try_fill_bytes(&mut buf) {
        Ok(()) => Some(buf),
        Err(_) => None,
    }
}

/// PKCE S256 challenge of a verifier: base64url of the SHA-256 digest bytes.
pub open spec fn code_challenge_of(verifier: Seq<char>) -> Seq<char> {
    base64url_of(hex_decoded(sha256_hex(verifier)))
}

/// Computes `base64url(sha256(verifier))` for the `S256` method.
pub fn code_challenge(verifier: &str) -> (r: String)
    ensures
        r@ == code_challenge_of(verifier@),
{
    let hex = digest_hex(verifier);
    assert(is_hex_text(hex@)) by {
        assert forall|i: int| 0 <= i < hex@.len() implies hex_digit_value(#[trigger] hex@[i]) >= 0 by {
            assert(is_lower_hex_digit(hex@[i]));
        }
    }
    match hex_decode(hex.as_str()) {
        Some(bytes) => base64url(&bytes),
        None => {
            proof {
                assert(false);
            }
            String::new()
        },
    }
}

} // verus!
