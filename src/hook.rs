use crate::signature::{bytes_of, check_signature, outcome, AuthError};
use vstd::prelude::*;

verus! {

/// One inbound webhook delivery: the payload exactly as received and the
/// signature header, if the sender presented one.
#[derive(Clone, Debug)]
pub struct Delivery {
    pub unparsed_payload: String,
    pub signature: Option<String>,
}

impl Delivery {
    /// The payload as bytes.
    pub open spec fn payload_bytes(&self) -> Seq<u8> {
        bytes_of(self.unparsed_payload@)
    }

    /// The signature header as bytes, if present.
    pub open spec fn signature_bytes(&self) -> Option<Seq<u8>> {
        match self.signature {
            Some(s) => Some(bytes_of(s@)),
            None => None,
        }
    }
}

/// Handles webhook deliveries.
pub trait Hook: Send + Sync {
    /// The deliveries this handler may be given.
    spec fn accepts(&self, delivery: &Delivery) -> bool;

    /// What holds once this handler has been given `delivery`.
    spec fn handled(&self, delivery: &Delivery) -> bool;

    /// Consumes one delivery; failures are the handler's own affair.
    fn handle(&self, delivery: &Delivery)
        requires
            self.accepts(delivery),
        ensures
            self.handled(delivery),
    ;
}

/// Any closure over a delivery is a handler.
impl<F: Fn(&Delivery) + Sync + Send + Clone + 'static> Hook for F {
    open spec fn accepts(&self, delivery: &Delivery) -> bool {
        call_requires(*self, (delivery,))
    }

    /// The closure has run on the delivery.
    open spec fn handled(&self, delivery: &Delivery) -> bool {
        call_ensures(*self, (delivery,), ())
    }

    fn handle(&self, delivery: &Delivery) {
        self(delivery)
    }
}

/// A handler that forwards to `hook` only the deliveries whose signature is
/// the HMAC-SHA1 of their payload under `secret`.
#[derive(Clone)]
pub struct AuthenticateHook<H: Hook + 'static> {
    secret: String,
    hook: H,
}

impl<H: Hook + Clone + 'static> AuthenticateHook<H> {
    /// The shared secret.
    pub closed spec fn secret_view(&self) -> Seq<char> {
        self.secret@
    }

    /// The wrapped handler.
    pub closed spec fn inner(&self) -> H {
        self.hook
    }

    /// The verdict on `delivery` under this instance's secret.
    pub open spec fn verdict(&self, delivery: &Delivery) -> Result<(), AuthError> {
        outcome(bytes_of(self.secret_view()), delivery.payload_bytes(), delivery.signature_bytes())
    }

    /// Wraps `hook` so that it only sees deliveries signed with `secret`.
    /// Any secret is taken, the empty one included.
    pub fn new(secret: &str, hook: H) -> (r: AuthenticateHook<H>)
        ensures
            r.secret_view() == secret@,
            r.inner() == hook,
    {
        AuthenticateHook { secret: secret.to_owned(), hook }
    }

    /// Whether `signature` authenticates `payload` under this secret.
    pub fn authenticate(&self, payload: &str, signature: &str) -> (r: bool)
        ensures
            r == (outcome(bytes_of(self.secret_view()), bytes_of(payload@), Some(bytes_of(signature@)))
                == Ok::<(), AuthError>(())),
    {
        check_signature(self.secret.as_str().as_bytes(), payload.as_bytes(), signature.as_bytes()).is_ok()
    }

    /// Decides whether `delivery` is authentic, and if not, why.
    pub fn check(&self, delivery: &Delivery) -> (r: Result<(), AuthError>)
        ensures
            r == self.verdict(delivery),
    {
        match &delivery.signature {
            None => Err(AuthError::MissingSignature),
            Some(sig) => check_signature(
                self.secret.as_str().as_bytes(),
                delivery.unparsed_payload.as_str().as_bytes(),
                sig.as_str().as_bytes(),
            ),
        }
    }

    /// Forwards `delivery` to the inner handler if it is authentic, and
    /// returns the verdict, so that a caller can report a rejection.
    pub fn dispatch(&self, delivery: &Delivery) -> (r: Result<(), AuthError>)
        requires
            self.accepts(delivery),
        ensures
            r == self.verdict(delivery),
            r is Ok ==> self.inner().handled(delivery),
    {
        let r = self.check(delivery);
        if r.is_ok() {
            self.hook.handle(delivery);
        }
        r
    }
}

impl<H: Hook + Clone + 'static> Hook for AuthenticateHook<H> {
    /// Only deliveries that pass authentication reach the inner handler, so
    /// only those need be acceptable to it.
    open spec fn accepts(&self, delivery: &Delivery) -> bool {
        self.verdict(delivery) == Ok::<(), AuthError>(()) ==> self.inner().accepts(delivery)
    }

    /// An authentic delivery has reached the inner handler.
    open spec fn handled(&self, delivery: &Delivery) -> bool {
        self.verdict(delivery) == Ok::<(), AuthError>(()) ==> self.inner().handled(delivery)
    }

    fn handle(&self, delivery: &Delivery) {
        let _ = self.dispatch(delivery);
    }
}

} // verus!
