//! Authentication of signed webhook deliveries.
//!
//! A delivery carries its raw payload and, optionally, a signature of the form
//! `sha1=<hex digest>`. [`hook::AuthenticateHook`] checks that signature as an
//! HMAC-SHA1 of the payload under a shared secret and forwards only the
//! deliveries that pass to the handler it wraps.

pub mod signature;
pub mod hook;
pub mod laws;
