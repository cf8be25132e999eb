use crate::hook::{AuthenticateHook, Delivery, Hook};
use crate::signature::{
    bytes_of, digest_text, fits_hmac, hex_decoded, hex_encoded, hex_value, hmac_sha1,
    is_lower_hex, is_lower_hex_digit, lower_hex_digit, outcome, parsed_signature, AuthError,
    TAG_LEN,
};
use vstd::prelude::*;

verus! {

/// The tag `sha1=` that opens a signature.
pub open spec fn sha1_tag() -> Seq<u8> {
    seq![0x73u8, 0x68u8, 0x61u8, 0x31u8, 0x3du8]
}

/// The signature a sender holding `secret` presents with `payload`: the tag,
/// then the lowercase hex of the HMAC-SHA1 of the payload under the secret.
pub open spec fn signature_for(secret: Seq<u8>, payload: Seq<u8>) -> Seq<u8> {
    sha1_tag() + hex_encoded(hmac_sha1(secret, payload))
}

proof fn lemma_lower_hex_digit(n: int)
    requires
        0 <= n < 16,
    ensures
        is_lower_hex_digit(lower_hex_digit(n)),
        hex_value(lower_hex_digit(n)) == n,
{
}

/// Lowercase hex encoding is read back by the decoder as the bytes it encodes.
pub proof fn lemma_hex_round_trip(b: Seq<u8>)
    ensures
        is_lower_hex(hex_encoded(b)),
        hex_decoded(hex_encoded(b)) == b,
{
    let e = hex_encoded(b);
    assert forall|i: int| 0 <= i < e.len() implies #[trigger] is_lower_hex_digit(e[i]) by {
        let v = b[i / 2] as int;
        lemma_lower_hex_digit(v / 16);
        lemma_lower_hex_digit(v % 16);
    }
    assert(e.len() % 2 == 0);
    assert forall|j: int| 0 <= j < b.len() implies #[trigger] hex_decoded(e)[j] == b[j] by {
        assert((2 * j) % 2 == 0 && (2 * j) / 2 == j);
        assert((2 * j + 1) % 2 == 1 && (2 * j + 1) / 2 == j);
        let v = b[j] as int;
        lemma_lower_hex_digit(v / 16);
        lemma_lower_hex_digit(v % 16);
        assert(hex_value(e[2 * j]) == v / 16);
        assert(hex_value(e[2 * j + 1]) == v % 16);
    }
    assert(hex_decoded(e) =~= b);
}

/// A signature's digest text is what follows the tag.
proof fn lemma_signature_digest(secret: Seq<u8>, payload: Seq<u8>)
    ensures
        digest_text(signature_for(secret, payload)) == hex_encoded(hmac_sha1(secret, payload)),
        parsed_signature(signature_for(secret, payload)) == Ok::<Seq<u8>, AuthError>(
            hmac_sha1(secret, payload),
        ),
{
    let sig = signature_for(secret, payload);
    assert(digest_text(sig) =~= hex_encoded(hmac_sha1(secret, payload)));
    lemma_hex_round_trip(hmac_sha1(secret, payload));
}

/// A payload signed with the secret authenticates under that same secret.
pub proof fn lemma_signed_payload_authenticates(secret: Seq<u8>, payload: Seq<u8>)
    requires
        fits_hmac(secret.len() as int),
        fits_hmac(payload.len() as int),
    ensures
        outcome(secret, payload, Some(signature_for(secret, payload))) == Ok::<(), AuthError>(()),
{
    lemma_signature_digest(secret, payload);
}

/// A delivery signed with the decorator's own secret is authentic, and so
/// reaches the inner handler.
pub proof fn lemma_signed_delivery_forwarded<H: Hook + Clone + 'static>(
    auth: AuthenticateHook<H>,
    delivery: Delivery,
)
    requires
        fits_hmac(bytes_of(auth.secret_view()).len() as int),
        fits_hmac(delivery.payload_bytes().len() as int),
        delivery.signature_bytes() == Some(
            signature_for(bytes_of(auth.secret_view()), delivery.payload_bytes()),
        ),
    ensures
        auth.verdict(&delivery) == Ok::<(), AuthError>(()),
        auth.handled(&delivery) ==> auth.inner().handled(&delivery),
{
    lemma_signed_payload_authenticates(bytes_of(auth.secret_view()), delivery.payload_bytes());
}

/// A signature made with one secret fails under another secret, whenever the
/// two secrets give the payload different digests.
pub proof fn lemma_other_secret_fails(signer: Seq<u8>, checker: Seq<u8>, payload: Seq<u8>)
    requires
        hmac_sha1(signer, payload) != hmac_sha1(checker, payload),
    ensures
        outcome(checker, payload, Some(signature_for(signer, payload)))
            == Err::<(), AuthError>(AuthError::AuthenticationFailed),
{
    lemma_signature_digest(signer, payload);
}

/// Changing one byte of a signed payload makes the signature fail, whenever
/// the change alters the payload's digest.
pub proof fn lemma_altered_payload_fails(secret: Seq<u8>, payload: Seq<u8>, i: int, byte: u8)
    requires
        0 <= i < payload.len(),
        byte != payload[i],
        hmac_sha1(secret, payload.update(i, byte)) != hmac_sha1(secret, payload),
    ensures
        outcome(secret, payload.update(i, byte), Some(signature_for(secret, payload)))
            == Err::<(), AuthError>(AuthError::AuthenticationFailed),
{
    lemma_signature_digest(secret, payload);
}

/// A delivery without a signature is rejected as unsigned, and so is never
/// handed to the inner handler: the decorator accepts it whatever the inner
/// handler accepts.
pub proof fn lemma_unsigned_never_forwarded<H: Hook + Clone + 'static>(
    auth: AuthenticateHook<H>,
    delivery: Delivery,
)
    requires
        delivery.signature is None,
    ensures
        auth.verdict(&delivery) == Err::<(), AuthError>(AuthError::MissingSignature),
        auth.accepts(&delivery),
{
}

/// A delivery whose digest text holds a byte that is no lowercase hex digit
/// (any byte that is no hex digit at all, or an uppercase one) is rejected as
/// malformed, and so is never handed to the inner handler.
pub proof fn lemma_non_hex_never_forwarded<H: Hook + Clone + 'static>(
    auth: AuthenticateHook<H>,
    delivery: Delivery,
    i: int,
)
    requires
        delivery.signature_bytes() is Some,
        TAG_LEN <= i < delivery.signature_bytes()->Some_0.len(),
        !is_lower_hex_digit(delivery.signature_bytes()->Some_0[i]),
    ensures
        auth.verdict(&delivery) == Err::<(), AuthError>(AuthError::MalformedSignature),
        auth.accepts(&delivery),
{
    let sig = delivery.signature_bytes()->Some_0;
    assert(!is_lower_hex_digit(digest_text(sig)[i - TAG_LEN]));
}

} // verus!
