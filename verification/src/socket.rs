//! An established WebSocket connection.

use vstd::prelude::*;

use crate::header::optional_view;
use crate::header::FieldValue;

verus! {

/// A stream of WebSocket messages.
#[derive(Debug)]
pub struct WebSocket<S> {
    inner: S,
    protocol: Option<FieldValue>,
}

impl<S> WebSocket<S> {
    /// The stream that carries the messages.
    pub closed spec fn stream(self) -> S {
        self.inner
    }

    /// The bytes of the selected subprotocol.
    pub closed spec fn subprotocol(self) -> Option<Seq<u8>> {
        optional_view(self.protocol)
    }

    /// A connection over `inner` on which the peers speak `protocol`.
    pub fn new(inner: S, protocol: Option<FieldValue>) -> (r: Self)
        ensures
            r.stream() == inner,
            r.subprotocol() == optional_view(protocol),
    {
        WebSocket { inner, protocol }
    }

    /// Consume `self` and get the inner stream.
    pub fn into_inner(self) -> (r: S)
        ensures
            r == self.stream(),
    {
        self.inner
    }

    /// The inner stream, to receive and send messages on.
    pub fn get_mut(&mut self) -> (r: &mut S)
        ensures
            *r == old(self).stream(),
            final(self).stream() == *final(r),
            final(self).subprotocol() == old(self).subprotocol(),
    {
        &mut self.inner
    }

    /// Return the selected WebSocket subprotocol, if one has been chosen.
    pub fn protocol(&self) -> (r: Option<&FieldValue>)
        ensures
            r is Some <==> self.subprotocol() is Some,
            r matches Some(value) ==> value@ == self.subprotocol()->0,
    {
        self.protocol.as_ref()
    }
}

} // verus!
