use webhook_auth::signature::{check_signature, parse_signature, AuthError};

#[test]
fn parse_signature_decodes_digest() {
    assert_eq!(parse_signature(b"sha1=00abff10"), Ok(vec![0x00, 0xab, 0xff, 0x10]));
    assert_eq!(parse_signature(b"sha1="), Ok(vec![]));
}

#[test]
fn parse_signature_rejects_malformed() {
    assert_eq!(parse_signature(b"sha1"), Err(AuthError::MalformedSignature));
    assert_eq!(parse_signature(b"sha1=0"), Err(AuthError::MalformedSignature));
    assert_eq!(parse_signature(b"sha1=0x"), Err(AuthError::MalformedSignature));
    assert_eq!(parse_signature(b"sha1=00aBff10"), Err(AuthError::MalformedSignature));
}

#[test]
fn check_signature_on_bytes() {
    let sig = b"sha1=de7c9b85b8b78aa6bc8a7a36f70a90701c9db4d9";
    let msg = b"The quick brown fox jumps over the lazy dog";
    assert_eq!(check_signature(b"key", msg, sig), Ok(()));
    assert_eq!(check_signature(b"kez", msg, sig), Err(AuthError::AuthenticationFailed));
    assert_eq!(check_signature(b"key", msg, b"sha1=zz"), Err(AuthError::MalformedSignature));
}
