use vstd::prelude::*;
use vstd::utf8::encode_utf8;

verus! {

/// Why a delivery was not authenticated.
#[derive(Clone, Copy, Debug, PartialEq, Eq, Structural)]
pub enum AuthError {
    /// The delivery carries no signature at all.
    MissingSignature,
    /// The signature is too short to hold its tag, or its digest part is not
    /// an even number of lowercase hex digits.
    MalformedSignature,
    /// The signature is well formed but is not the HMAC of the payload under
    /// the secret.
    AuthenticationFailed,
}

/// Number of leading bytes (the algorithm tag `sha1=`) removed from a signature
/// before its digest is decoded.
pub const TAG_LEN: usize = 5;

/// Inputs to HMAC-SHA1 must stay below this many bytes: SHA-1 counts the
/// message length in bits in a 64-bit field.
pub const MAX_HMAC_INPUT: u64 = 0x1000_0000_0000_0000;

/// The bytes of a string, UTF-8 encoded.
pub open spec fn bytes_of(s: Seq<char>) -> Seq<u8> {
    encode_utf8(s)
}

pub open spec fn is_hex_digit(c: u8) -> bool {
    (0x30 <= c <= 0x39) || (0x41 <= c <= 0x46) || (0x61 <= c <= 0x66)
}

/// The value of a hex digit, upper or lower case.
pub open spec fn hex_value(c: u8) -> int {
    if 0x30 <= c <= 0x39 {
        c - 0x30
    } else if 0x41 <= c <= 0x46 {
        c - 0x41 + 10
    } else {
        c - 0x61 + 10
    }
}

/// An even number of hex digits.
pub open spec fn is_hex(s: Seq<u8>) -> bool {
    &&& s.len() % 2 == 0
    &&& forall|i: int| 0 <= i < s.len() ==> #[trigger] is_hex_digit(s[i])
}

/// A digit of the signature format: `0`-`9` or `a`-`f`.
pub open spec fn is_lower_hex_digit(c: u8) -> bool {
    (0x30 <= c <= 0x39) || (0x61 <= c <= 0x66)
}

/// An even number of lowercase hex digits: the only digest text a signature
/// may hold.
pub open spec fn is_lower_hex(s: Seq<u8>) -> bool {
    &&& s.len() % 2 == 0
    &&& forall|i: int| 0 <= i < s.len() ==> #[trigger] is_lower_hex_digit(s[i])
}

/// The bytes that a string of hex digits spells, two digits per byte, high
/// nibble first.
pub open spec fn hex_decoded(s: Seq<u8>) -> Seq<u8> {
    Seq::new((s.len() / 2) as nat, |i: int| (hex_value(s[2 * i]) * 16 + hex_value(s[2 * i + 1])) as u8)
}

/// The lowercase hex digit for a value below 16.
pub open spec fn lower_hex_digit(n: int) -> u8 {
    if n < 10 {
        (0x30 + n) as u8
    } else {
        (0x61 + n - 10) as u8
    }
}

/// Lowercase hex encoding: two digits per byte, high nibble first.
pub open spec fn hex_encoded(b: Seq<u8>) -> Seq<u8> {
    Seq::new(
        2 * b.len(),
        |i: int|
            if i % 2 == 0 {
                lower_hex_digit(b[i / 2] as int / 16)
            } else {
                lower_hex_digit(b[i / 2] as int % 16)
            },
    )
}

/// Length in bytes of an HMAC-SHA1 digest.
pub const DIGEST_LEN: usize = 20;

/// HMAC-SHA1 of `message` under `key`: the 20-byte digest.
pub uninterp spec fn hmac_sha1(key: Seq<u8>, message: Seq<u8>) -> Seq<u8>;

/// The digest part of a signature: what follows its tag.
pub open spec fn digest_text(signature: Seq<u8>) -> Seq<u8> {
    signature.subrange(TAG_LEN as int, signature.len() as int)
}

/// What a signature decodes to: the digest bytes, or why it cannot be read.
pub open spec fn parsed_signature(signature: Seq<u8>) -> Result<Seq<u8>, AuthError> {
    if signature.len() < TAG_LEN || !is_lower_hex(digest_text(signature)) {
        Err(AuthError::MalformedSignature)
    } else {
        Ok(hex_decoded(digest_text(signature)))
    }
}

/// Whether a length is one that HMAC-SHA1 accepts.
pub open spec fn fits_hmac(len: int) -> bool {
    len < MAX_HMAC_INPUT
}

/// The verdict on a delivery with the given payload and signature, checked
/// against `secret` (all as bytes).
pub open spec fn outcome(secret: Seq<u8>, payload: Seq<u8>, signature: Option<Seq<u8>>) -> Result<(), AuthError> {
    match signature {
        None => Err(AuthError::MissingSignature),
        Some(sig) => match parsed_signature(sig) {
            Err(e) => Err(e),
            Ok(digest) => if fits_hmac(secret.len() as int) && fits_hmac(payload.len() as int)
                && digest == hmac_sha1(secret, payload) {
                Ok(())
            } else {
                Err(AuthError::AuthenticationFailed)
            },
        },
    }
}

#[verifier::external_type_specification]
#[verifier::external_body]
pub struct ExFromHexError(hex::FromHexError);

/// Relies on hex::decode: it succeeds exactly on an even number of hex digits
/// (either case) and then yields one byte per pair, high nibble first.
#[verifier::external_body]
fn decode_hex(text: &[u8]) -> (r: Result<Vec<u8>, hex::FromHexError>)
    ensures
        r is Ok <==> is_hex(text@),
        r matches Ok(v) ==> v@ == hex_decoded(text@),
{
    hex::decode(text)
}

/// Relies on ring::hmac::Key::new with HMAC_SHA1_FOR_LEGACY_USE_ONLY and on
/// ring::hmac::verify: the tag is accepted exactly when it equals the HMAC-SHA1
/// of the message under the key, compared in constant time, and so only when
/// it has the 20 bytes of a SHA-1 output. Neither call panics on inputs of
/// these lengths.
#[verifier::external_body]
fn hmac_sha1_verify(key: &[u8], message: &[u8], tag: &[u8]) -> (r: bool)
    requires
        fits_hmac(key@.len() as int),
        fits_hmac(message@.len() as int),
    ensures
        r == (tag@ == hmac_sha1(key@, message@)),
        r ==> tag@.len() == DIGEST_LEN,
{
    let k = ring::hmac::Key::new(ring::hmac::HMAC_SHA1_FOR_LEGACY_USE_ONLY, key);
    ring::hmac::verify(&k, message, tag).is_ok()
}

/// Whether every byte is a lowercase hex digit and there is an even number
/// of them.
fn is_lower_hex_text(text: &[u8]) -> (r: bool)
    ensures
        r == is_lower_hex(text@),
{
    if text.len() % 2 != 0 {
        return false;
    }
    let mut i: usize = 0;
    while i < text.len()
        invariant
            i <= text@.len(),
            forall|j: int| 0 <= j < i ==> #[trigger] is_lower_hex_digit(text@[j]),
        decreases text.len() - i,
    {
        let c = text[i];
        if !((0x30 <= c && c <= 0x39) || (0x61 <= c && c <= 0x66)) {
            assert(!is_lower_hex_digit(text@[i as int]));
            return false;
        }
        i += 1;
    }
    true
}

/// Strips the tag from a signature and decodes the hex digest after it.
pub fn parse_signature(signature: &[u8]) -> (r: Result<Vec<u8>, AuthError>)
    ensures
        match r {
            Ok(v) => parsed_signature(signature@) == Ok::<Seq<u8>, AuthError>(v@),
            Err(e) => parsed_signature(signature@) == Err::<Seq<u8>, AuthError>(e),
        },
{
    if signature.len() < TAG_LEN {
        return Err(AuthError::MalformedSignature);
    }
    let (_, digest) = signature.split_at(TAG_LEN);
    assert(digest@ == digest_text(signature@));
    if !is_lower_hex_text(digest) {
        return Err(AuthError::MalformedSignature);
    }
    assert forall|i: int| 0 <= i < digest@.len() implies #[trigger] is_hex_digit(digest@[i]) by {
        assert(is_lower_hex_digit(digest@[i]));
    }
    match decode_hex(digest) {
        Ok(v) => Ok(v),
        Err(_) => Err(AuthError::MalformedSignature),
    }
}

/// Checks a signature over `payload` under `secret`, all given as bytes.
pub fn check_signature(secret: &[u8], payload: &[u8], signature: &[u8]) -> (r: Result<(), AuthError>)
    ensures
        r == outcome(secret@, payload@, Some(signature@)),
        r is Ok ==> signature@.len() == TAG_LEN + 2 * DIGEST_LEN,
{
    match parse_signature(signature) {
        Err(e) => Err(e),
        Ok(digest) => {
            if (secret.len() as u64) < MAX_HMAC_INPUT && (payload.len() as u64) < MAX_HMAC_INPUT
                && hmac_sha1_verify(secret, payload, digest.as_slice()) {
                Ok(())
            } else {
                Err(AuthError::AuthenticationFailed)
            }
        },
    }
}

} // verus!
