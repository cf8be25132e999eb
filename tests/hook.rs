use std::sync::atomic::{AtomicUsize, Ordering};
use std::sync::{Arc, Mutex};

use ring::hmac;
use webhook_auth::hook::{AuthenticateHook, Delivery, Hook};
use webhook_auth::signature::AuthError;

const ZEN: &str = r#"{"zen": "Approachable is better than simple."}"#;

fn sign(secret: &str, payload: &str) -> String {
    let key = hmac::Key::new(hmac::HMAC_SHA1_FOR_LEGACY_USE_ONLY, secret.as_bytes());
    format!("sha1={}", hex::encode(hmac::sign(&key, payload.as_bytes()).as_ref()))
}

fn delivery(payload: &str, signature: Option<String>) -> Delivery {
    Delivery {
        unparsed_payload: payload.to_string(),
        signature,
    }
}

/// A handler that records every payload it is given.
fn recorder() -> (Arc<Mutex<Vec<String>>>, impl Fn(&Delivery) + Clone + Send + Sync + 'static) {
    let seen = Arc::new(Mutex::new(Vec::new()));
    let log = seen.clone();
    let handler = move |d: &Delivery| log.lock().unwrap().push(d.unparsed_payload.clone());
    (seen, handler)
}

#[test]
fn authenticate_signatures() {
    let authenticated = AuthenticateHook::new("secret", |_: &Delivery| {});
    let payload = r#"{"zen": "Approachable is better than simple."}"#;
    let secret = "secret";
    let sbytes = secret.as_bytes();
    let pbytes = payload.as_bytes();
    let key = hmac::Key::new(hmac::HMAC_SHA1_FOR_LEGACY_USE_ONLY, sbytes);
    let signature = hex::encode(hmac::sign(&key, pbytes).as_ref());
    assert!(authenticated.authenticate(payload, format!("sha1={}", signature).as_ref()))
}

#[test]
fn signature_of_known_payload_is_the_published_digest() {
    assert_eq!(sign("secret", ZEN), "sha1=4471180c43c722dcd4cd4445dd1ec771bebd9b8e");
    let auth = AuthenticateHook::new("secret", |_: &Delivery| {});
    assert!(auth.authenticate(ZEN, "sha1=4471180c43c722dcd4cd4445dd1ec771bebd9b8e"));
    assert!(!auth.authenticate(ZEN, "sha1=4471180c43c722dcd4cd4445dd1ec771bebd9b8f"));
}

#[test]
fn signed_delivery_reaches_handler_once() {
    let (seen, handler) = recorder();
    let auth = AuthenticateHook::new("secret", handler);
    auth.handle(&delivery(ZEN, Some(sign("secret", ZEN))));
    assert_eq!(*seen.lock().unwrap(), vec![ZEN.to_string()]);
}

#[test]
fn wrong_secret_delivery_not_forwarded() {
    let (seen, handler) = recorder();
    let auth = AuthenticateHook::new("wrong-secret", handler);
    let d = delivery(ZEN, Some(sign("secret", ZEN)));
    assert_eq!(auth.check(&d), Err(AuthError::AuthenticationFailed));
    auth.handle(&d);
    assert!(seen.lock().unwrap().is_empty());
}

#[test]
fn unsigned_delivery_not_forwarded() {
    let (seen, handler) = recorder();
    let auth = AuthenticateHook::new("secret", handler);
    let d = delivery(ZEN, None);
    assert_eq!(auth.check(&d), Err(AuthError::MissingSignature));
    auth.handle(&d);
    assert!(seen.lock().unwrap().is_empty());
}

#[test]
fn non_hex_signature_not_forwarded() {
    let (seen, handler) = recorder();
    let auth = AuthenticateHook::new("secret", handler);
    let good = sign("secret", ZEN);
    let bad = format!("{}g{}", &good[..10], &good[11..]);
    let d = delivery(ZEN, Some(bad));
    assert_eq!(auth.check(&d), Err(AuthError::MalformedSignature));
    auth.handle(&d);
    assert!(seen.lock().unwrap().is_empty());
}

#[test]
fn short_or_odd_signatures_are_malformed() {
    let auth = AuthenticateHook::new("secret", |_: &Delivery| {});
    for sig in ["", "sha", "sha1", "sha1=abc", "sha1=ab cd", "sha1=é0"] {
        let d = delivery(ZEN, Some(sig.to_string()));
        assert_eq!(auth.check(&d), Err(AuthError::MalformedSignature), "{}", sig);
    }
}

#[test]
fn empty_digest_fails_authentication() {
    let auth = AuthenticateHook::new("secret", |_: &Delivery| {});
    assert_eq!(
        auth.check(&delivery(ZEN, Some("sha1=".to_string()))),
        Err(AuthError::AuthenticationFailed)
    );
}

#[test]
fn tag_is_not_inspected() {
    let auth = AuthenticateHook::new("secret", |_: &Delivery| {});
    let sig = sign("secret", ZEN).replacen("sha1=", "xxxx=", 1);
    assert!(auth.authenticate(ZEN, &sig));
}

#[test]
fn uppercase_digest_is_malformed() {
    let auth = AuthenticateHook::new("secret", |_: &Delivery| {});
    let sig = format!("sha1={}", sign("secret", ZEN)[5..].to_uppercase());
    assert!(!auth.authenticate(ZEN, &sig));
    assert_eq!(auth.check(&delivery(ZEN, Some(sig))), Err(AuthError::MalformedSignature));
}

#[test]
fn dispatch_reports_verdict_and_forwards_authentic() {
    let (seen, handler) = recorder();
    let auth = AuthenticateHook::new("secret", handler);
    assert_eq!(auth.dispatch(&delivery(ZEN, Some(sign("secret", ZEN)))), Ok(()));
    assert_eq!(
        auth.dispatch(&delivery(ZEN, Some(sign("other", ZEN)))),
        Err(AuthError::AuthenticationFailed)
    );
    assert_eq!(auth.dispatch(&delivery(ZEN, None)), Err(AuthError::MissingSignature));
    assert_eq!(*seen.lock().unwrap(), vec![ZEN.to_string()]);
}

#[test]
fn other_secret_fails() {
    let auth = AuthenticateHook::new("secret2", |_: &Delivery| {});
    assert!(!auth.authenticate(ZEN, &sign("secret1", ZEN)));
    assert!(AuthenticateHook::new("secret1", |_: &Delivery| {}).authenticate(ZEN, &sign("secret1", ZEN)));
}

#[test]
fn altered_payload_fails() {
    let auth = AuthenticateHook::new("secret", |_: &Delivery| {});
    let sig = sign("secret", ZEN);
    let mut bytes = ZEN.as_bytes().to_vec();
    bytes[3] = b'Z';
    let altered = String::from_utf8(bytes).unwrap();
    assert!(!auth.authenticate(&altered, &sig));
    assert_eq!(auth.check(&delivery(&altered, Some(sig))), Err(AuthError::AuthenticationFailed));
}

#[test]
fn empty_secret_and_payload_are_accepted() {
    let auth = AuthenticateHook::new("", |_: &Delivery| {});
    assert!(auth.authenticate("", "sha1=fbdb1d1b18aa6c08324b7d64b71fb76370690e1d"));
    assert_eq!(sign("", ""), "sha1=fbdb1d1b18aa6c08324b7d64b71fb76370690e1d");
}

#[test]
fn decorators_nest() {
    let count = Arc::new(AtomicUsize::new(0));
    let c = count.clone();
    let inner = AuthenticateHook::new("key", move |_: &Delivery| {
        c.fetch_add(1, Ordering::SeqCst);
    });
    let outer = AuthenticateHook::new("key", inner.clone());
    let payload = "The quick brown fox jumps over the lazy dog";
    outer.handle(&delivery(payload, Some("sha1=de7c9b85b8b78aa6bc8a7a36f70a90701c9db4d9".to_string())));
    outer.handle(&delivery(payload, Some("sha1=de7c9b85b8b78aa6bc8a7a36f70a90701c9db4d8".to_string())));
    assert_eq!(count.load(Ordering::SeqCst), 1);
}
