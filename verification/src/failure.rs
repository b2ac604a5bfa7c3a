//! What to do when the connection of an accepted request cannot be taken over.

use vstd::prelude::*;

verus! {

/// The error with which hyper ends an upgrade that failed.
#[verifier::external_type_specification]
#[verifier::external_body]
pub struct ExError(hyper::Error);

/// What to do when a connection upgrade fails.
///
/// See [`WebSocketUpgrade::on_failed_upgrade`](crate::WebSocketUpgrade::on_failed_upgrade) for
/// more details.
pub trait OnFailedUpdgrade: Send + 'static {
    /// Whether the callback may be called with an error.
    spec fn accepts(self, error: hyper::Error) -> bool;

    /// Call the callback.
    fn call(self, error: hyper::Error)
        requires
            self.accepts(error),
    ;
}

impl<F> OnFailedUpdgrade for F where F: FnOnce(hyper::Error) + Send + 'static {
    open spec fn accepts(self, error: hyper::Error) -> bool {
        call_requires(self, (error,))
    }

    fn call(self, error: hyper::Error)
        ensures
            call_ensures(self, (error,), ()),
    {
        self(error)
    }
}

/// The default `OnFailedUpdgrade` used by `WebSocketUpgrade`.
///
/// It simply ignores the error.
#[non_exhaustive]
#[derive(Debug)]
pub struct DefaultOnFailedUpdgrade;

impl OnFailedUpdgrade for DefaultOnFailedUpdgrade {
    open spec fn accepts(self, error: hyper::Error) -> bool {
        true
    }

    fn call(self, _error: hyper::Error) {
    }
}

} // verus!
